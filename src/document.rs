use vstd::prelude::*;

use crate::error::{ErrorKind, LspError};
use crate::position::{
    byte_at, index_by_position, lemma_index_bounds, offset_in, offset_of_position, position_in,
    position_of_offset, Position, Range,
};
use crate::text::{byte_len, chars_of, lemma_take_next, string_of};

verus! {

/// What a tracked document is: its address, its version and its text.
pub struct DocumentView {
    pub uri: Seq<char>,
    pub version: i32,
    pub text: Seq<char>,
}

/// One change that the editor reports: the text that replaces `range`, or
/// the whole document where there is no range.
#[derive(Clone, Debug, PartialEq, Eq)]
pub struct ContentChange {
    pub range: Option<Range>,
    pub text: String,
}

/// The text after one change, if the change can be made: its range must not
/// end before it starts, and the result must stay addressable by 32-bit
/// offsets.
pub open spec fn changed_text(s: Seq<char>, range: Option<Range>, t: Seq<char>) -> Option<
    Seq<char>,
> {
    let r = match range {
        None => Some(t),
        Some(rg) => {
            let a = index_by_position(s, rg.start, s.len() as int);
            let b = index_by_position(s, rg.end, s.len() as int);
            if a <= b {
                Some(s.take(a) + t + s.skip(b))
            } else {
                None
            }
        },
    };
    match r {
        Some(n) => if byte_len(n) <= u32::MAX {
            Some(n)
        } else {
            None
        },
        None => None,
    }
}

/// The text after the first `k` changes, applied in order.
pub open spec fn changes_applied(s: Seq<char>, changes: Seq<ContentChange>, k: int) -> Option<
    Seq<char>,
>
    decreases k,
{
    if k <= 0 {
        Some(s)
    } else {
        match changes_applied(s, changes, k - 1) {
            Some(t) => changed_text(t, changes[k - 1].range, changes[k - 1].text@),
            None => None,
        }
    }
}

/// An open document: its address, version and text, with the conversions
/// between byte offsets and editor positions in that text.
pub struct TextDocument {
    uri: String,
    version: i32,
    content: Vec<char>,
}

impl View for TextDocument {
    type V = DocumentView;

    closed spec fn view(&self) -> DocumentView {
        DocumentView { uri: self.uri@, version: self.version, text: self.content@ }
    }
}

fn fits_u32(s: &Vec<char>) -> (r: bool)
    ensures
        r == (byte_len(s@) <= u32::MAX),
{
    let n = s.len();
    let mut i: usize = 0;
    let mut b: u64 = 0;
    proof {
        assert(s@.take(0) =~= Seq::<char>::empty());
    }
    while i < n
        invariant
            n == s@.len(),
            i <= n,
            b == byte_at(s@, i as int),
            b <= u32::MAX,
        decreases n - i,
    {
        proof {
            lemma_take_next(s@, i as int);
        }
        b = b + crate::text::char_len_utf8(s[i]) as u64;
        if b > u32::MAX as u64 {
            proof {
                lemma_index_bounds(s@, i as int + 1);
            }
            return false;
        }
        i = i + 1;
    }
    proof {
        assert(s@.take(n as int) =~= s@);
    }
    true
}

fn extend_with(v: &mut Vec<char>, s: &Vec<char>, from: usize, to: usize)
    requires
        from <= to <= s@.len(),
    ensures
        final(v)@ == old(v)@ + s@.subrange(from as int, to as int),
{
    let mut i = from;
    while i < to
        invariant
            from <= i <= to <= s@.len(),
            v@ == old(v)@ + s@.subrange(from as int, i as int),
        decreases to - i,
    {
        proof {
            assert(old(v)@ + s@.subrange(from as int, i + 1) =~= v@.push(s@[i as int]));
        }
        v.push(s[i]);
        i = i + 1;
    }
}

/// The characters after one change.
fn change_chars(s: &Vec<char>, change: &ContentChange) -> (r: Option<Vec<char>>)
    requires
        byte_len(s@) <= u32::MAX,
    ensures
        match r {
            Some(v) => changed_text(s@, change.range, change.text@) == Some(v@),
            None => changed_text(s@, change.range, change.text@) is None,
        },
{
    let t = chars_of(change.text.as_str());
    let next = match change.range {
        None => t,
        Some(rg) => {
            let (a, _) = crate::position::scan_index(s, rg.start);
            let (b, _) = crate::position::scan_index(s, rg.end);
            if a > b {
                return None;
            }
            let mut v: Vec<char> = Vec::new();
            extend_with(&mut v, s, 0, a);
            extend_with(&mut v, &t, 0, t.len());
            extend_with(&mut v, s, b, s.len());
            proof {
                assert(v@ =~= s@.take(a as int) + t@ + s@.skip(b as int));
            }
            v
        },
    };
    if fits_u32(&next) {
        Some(next)
    } else {
        None
    }
}

impl TextDocument {
    #[verifier::type_invariant]
    spec fn inv(self) -> bool {
        byte_len(self.content@) <= u32::MAX
    }

    /// A document holding `text`; none where the text does not fit 32-bit
    /// byte offsets.
    pub fn new(uri: String, version: i32, text: &str) -> (r: Option<TextDocument>)
        ensures
            r is Some <==> byte_len(text@) <= u32::MAX,
            r matches Some(d) ==> d@ == (DocumentView { uri: uri@, version, text: text@ }),
    {
        let content = chars_of(text);
        if fits_u32(&content) {
            Some(TextDocument { uri, version, content })
        } else {
            None
        }
    }

    /// The document's address.
    pub fn uri(&self) -> (r: &String)
        ensures
            r@ == self@.uri,
    {
        &self.uri
    }

    /// The version of the last change.
    pub fn version(&self) -> (r: i32)
        ensures
            r == self@.version,
    {
        self.version
    }

    /// The whole text.
    pub fn get_content(&self) -> (r: String)
        ensures
            r@ == self@.text,
            byte_len(r@) <= u32::MAX,
    {
        proof {
            use_type_invariant(self);
        }
        string_of(&self.content)
    }

    /// The editor position of byte offset `offset`.
    pub fn position_at(&self, offset: u32) -> (r: Position)
        ensures
            r == position_of_offset(self@.text, offset as int),
            byte_len(self@.text) <= u32::MAX,
    {
        proof {
            use_type_invariant(self);
        }
        position_in(&self.content, offset)
    }

    /// The byte offset of editor position `position`.
    pub fn offset_at(&self, position: Position) -> (r: u32)
        ensures
            r == offset_of_position(self@.text, position),
            byte_len(self@.text) <= u32::MAX,
    {
        proof {
            use_type_invariant(self);
        }
        let (i, b) = crate::position::scan_index(&self.content, position);
        proof {
            lemma_index_bounds(self.content@, i as int);
        }
        b as u32
    }

    /// The editor range between two byte offsets.
    pub fn range_at(&self, start: u32, end: u32) -> (r: Range)
        ensures
            r.start == position_of_offset(self@.text, start as int),
            r.end == position_of_offset(self@.text, end as int),
    {
        Range { start: self.position_at(start), end: self.position_at(end) }
    }

    /// Applies `changes` in order and takes `version`; where one of them
    /// cannot be made, the document stays as it was.
    pub fn update(&mut self, changes: &Vec<ContentChange>, version: i32) -> (r: Result<
        (),
        LspError,
    >)
        ensures
            match changes_applied(old(self)@.text, changes@, changes@.len() as int) {
                Some(t) => r is Ok && final(self)@ == (DocumentView {
                    uri: old(self)@.uri,
                    version,
                    text: t,
                }),
                None => r matches Err(e) && e.kind == ErrorKind::InvalidParams && final(self)@
                    == old(self)@,
            },
    {
        proof {
            use_type_invariant(&*self);
        }
        let mut cur: Vec<char> = Vec::new();
        extend_with(&mut cur, &self.content, 0, self.content.len());
        proof {
            assert(cur@ =~= self.content@);
        }
        let n = changes.len();
        let mut i: usize = 0;
        while i < n
            invariant
                n == changes@.len(),
                i <= n,
                changes_applied(self.content@, changes@, i as int) == Some(cur@),
                byte_len(cur@) <= u32::MAX,
            decreases n - i,
        {
            match change_chars(&cur, &changes[i]) {
                Some(next) => {
                    cur = next;
                },
                None => {
                    proof {
                        lemma_failure_persists(self.content@, changes@, i as int + 1);
                    }
                    return Err(LspError::new(ErrorKind::InvalidParams, "cannot apply change"));
                },
            }
            i = i + 1;
        }
        self.content = cur;
        self.version = version;
        Ok(())
    }
}

/// Once a change cannot be made, none of the changes are.
proof fn lemma_failure_persists(s: Seq<char>, changes: Seq<ContentChange>, k: int)
    requires
        0 < k <= changes.len(),
        changes_applied(s, changes, k) is None,
    ensures
        changes_applied(s, changes, changes.len() as int) is None,
    decreases changes.len() - k,
{
    if k < changes.len() {
        lemma_failure_persists(s, changes, k + 1);
    }
}

} // verus!

verus! {

/// Index of the document with address `uri` among `docs`, searched from the end.
pub open spec fn index_of(docs: Seq<DocumentView>, uri: Seq<char>) -> Option<int>
    decreases docs.len(),
{
    if docs.len() == 0 {
        None
    } else if docs.last().uri == uri {
        Some(docs.len() - 1)
    } else {
        index_of(docs.drop_last(), uri)
    }
}

/// No two documents share an address.
pub open spec fn uris_distinct(docs: Seq<DocumentView>) -> bool {
    forall|i: int, j: int| 0 <= i < j < docs.len() ==> docs[i].uri != docs[j].uri
}

/// `index_of` finds the last document with the address.
pub proof fn lemma_index_of(docs: Seq<DocumentView>, uri: Seq<char>)
    ensures
        match index_of(docs, uri) {
            Some(i) => 0 <= i < docs.len() && docs[i].uri == uri && forall|j: int|
                i < j < docs.len() ==> docs[j].uri != uri,
            None => forall|j: int| 0 <= j < docs.len() ==> docs[j].uri != uri,
        },
    decreases docs.len(),
{
    if docs.len() > 0 {
        lemma_index_of(docs.drop_last(), uri);
        assert(forall|j: int| 0 <= j < docs.len() - 1 ==> docs.drop_last()[j] == docs[j]);
    }
}

/// The open documents, one per address.
pub struct DocumentStore {
    docs: Vec<TextDocument>,
}

impl View for DocumentStore {
    type V = Seq<DocumentView>;

    closed spec fn view(&self) -> Seq<DocumentView> {
        self.docs@.map_values(|d: TextDocument| d@)
    }
}

impl DocumentStore {
    /// A store with no document.
    pub fn new() -> (r: DocumentStore)
        ensures
            r@ == Seq::<DocumentView>::empty(),
    {
        let r = DocumentStore { docs: Vec::new() };
        proof {
            assert(r@ =~= Seq::<DocumentView>::empty());
        }
        r
    }

    fn find(&self, uri: &String) -> (r: Option<usize>)
        ensures
            match index_of(self@, uri@) {
                Some(i) => 0 <= i < self@.len() && (r matches Some(j) && j == i),
                None => r is None,
            },
    {
        proof {
            lemma_index_of(self@, uri@);
        }
        let mut i = self.docs.len();
        while i > 0
            invariant
                i <= self.docs@.len(),
                self@.len() == self.docs@.len(),
                forall|j: int| i <= j < self@.len() ==> self@[j].uri != uri@,
                match index_of(self@, uri@) {
                    Some(k) => 0 <= k < self@.len() && self@[k].uri == uri@ && forall|j: int|
                        k < j < self@.len() ==> self@[j].uri != uri@,
                    None => forall|j: int| 0 <= j < self@.len() ==> self@[j].uri != uri@,
                },
            decreases i,
        {
            proof {
                assert(self@[i - 1] == self.docs@[i - 1]@);
            }
            if self.docs[i - 1].uri().eq(uri) {
                return Some(i - 1);
            }
            i = i - 1;
        }
        None
    }

    /// Starts tracking `uri` with `text`, or replaces what was tracked under it.
    /// Fails, changing nothing, where the text does not fit 32-bit byte offsets.
    pub fn open(&mut self, uri: String, version: i32, text: &str) -> (r: Result<(), LspError>)
        ensures
            byte_len(text@) <= u32::MAX ==> {
                let d = DocumentView { uri: uri@, version, text: text@ };
                &&& r is Ok
                &&& match index_of(old(self)@, uri@) {
                    Some(i) => final(self)@ == old(self)@.update(i, d),
                    None => final(self)@ == old(self)@.push(d),
                }
            },
            byte_len(text@) > u32::MAX ==> (r matches Err(e) && e.kind == ErrorKind::InvalidParams
                && final(self)@ == old(self)@),
    {
        let found = self.find(&uri);
        match TextDocument::new(uri, version, text) {
            None => Err(LspError::new(ErrorKind::InvalidParams, "document is too large")),
            Some(doc) => {
                proof {
                    lemma_index_of(self@, doc@.uri);
                }
                match found {
                    Some(i) => {
                        self.docs.set(i, doc);
                        proof {
                            assert(self@ =~= old(self)@.update(i as int, doc@));
                        }
                    },
                    None => {
                        self.docs.push(doc);
                        proof {
                            assert(self@ =~= old(self)@.push(doc@));
                        }
                    },
                }
                Ok(())
            },
        }
    }

    /// Applies `changes` to the document at `uri` and gives it `version`.
    /// Fails, changing nothing, where no document is at `uri` or a change
    /// cannot be made.
    pub fn change(&mut self, uri: &String, version: i32, changes: &Vec<ContentChange>) -> (r: Result<
        (),
        LspError,
    >)
        ensures
            match index_of(old(self)@, uri@) {
                None => r matches Err(e) && e.kind == ErrorKind::InvalidParams && final(self)@
                    == old(self)@,
                Some(i) => match changes_applied(
                    old(self)@[i].text,
                    changes@,
                    changes@.len() as int,
                ) {
                    Some(t) => r is Ok && final(self)@ == old(self)@.update(
                        i,
                        DocumentView { uri: uri@, version, text: t },
                    ),
                    None => r matches Err(e) && e.kind == ErrorKind::InvalidParams
                        && final(self)@ == old(self)@,
                },
            },
    {
        proof {
            lemma_index_of(self@, uri@);
        }
        match self.find(uri) {
            None => Err(LspError::new(ErrorKind::InvalidParams, "document not found")),
            Some(i) => {
                proof {
                    assert(self@[i as int] == self.docs@[i as int]@);
                }
                let mut doc = self.docs.remove(i);
                let r = doc.update(changes, version);
                self.docs.insert(i, doc);
                proof {
                    assert(self@ =~= old(self)@.update(i as int, doc@));
                    if r is Err {
                        assert(self@ =~= old(self)@);
                    }
                }
                r
            },
        }
    }

    /// Stops tracking `uri`, where it is tracked.
    pub fn close(&mut self, uri: &String)
        ensures
            match index_of(old(self)@, uri@) {
                Some(i) => final(self)@ == old(self)@.remove(i),
                None => final(self)@ == old(self)@,
            },
    {
        if let Some(i) = self.find(uri) {
            self.docs.remove(i);
            proof {
                assert(self@ =~= old(self)@.remove(i as int));
            }
        }
    }

    /// The document at `uri`.
    pub fn get(&self, uri: &String) -> (r: Result<&TextDocument, LspError>)
        ensures
            r is Ok <==> index_of(self@, uri@) is Some,
            r matches Ok(d) ==> d@ == self@[index_of(self@, uri@)->0],
            r matches Err(e) ==> e.kind == ErrorKind::InvalidParams,
    {
        match self.find(uri) {
            Some(i) => {
                let d = &self.docs[i];
                proof {
                    assert(self@[i as int] == self.docs@[i as int]@);
                    assert(d@ == self@[i as int]);
                }
                Ok(d)
            },
            None => Err(LspError::new(ErrorKind::InvalidParams, "document not found")),
        }
    }

    /// The text of the document at `uri`.
    pub fn get_content(&self, uri: &String) -> (r: Result<String, LspError>)
        ensures
            match index_of(self@, uri@) {
                Some(i) => r matches Ok(t) && t@ == self@[i].text,
                None => r matches Err(e) && e.kind == ErrorKind::InvalidParams,
            },
    {
        let doc = self.get(uri)?;
        Ok(doc.get_content())
    }

    /// The byte offset of `position` in the document at `uri`.
    pub fn offset_at(&self, uri: &String, position: Position) -> (r: Result<u32, LspError>)
        ensures
            match index_of(self@, uri@) {
                Some(i) => r matches Ok(o) && o == offset_of_position(self@[i].text, position),
                None => r matches Err(e) && e.kind == ErrorKind::InvalidParams,
            },
    {
        let doc = self.get(uri)?;
        Ok(doc.offset_at(position))
    }

    /// The editor position of byte offset `offset` in the document at `uri`.
    pub fn position_at(&self, uri: &String, offset: u32) -> (r: Result<Position, LspError>)
        ensures
            match index_of(self@, uri@) {
                Some(i) => r matches Ok(p) && p == position_of_offset(self@[i].text, offset as int),
                None => r matches Err(e) && e.kind == ErrorKind::InvalidParams,
            },
    {
        let doc = self.get(uri)?;
        Ok(doc.position_at(offset))
    }

    /// The addresses of all tracked documents, in the store's order.
    pub fn uris(&self) -> (r: Vec<String>)
        ensures
            r@.len() == self@.len(),
            forall|i: int| 0 <= i < r@.len() ==> r@[i]@ == self@[i].uri,
    {
        let mut r: Vec<String> = Vec::new();
        let n = self.docs.len();
        let mut i: usize = 0;
        while i < n
            invariant
                n == self@.len(),
                i <= n,
                r@.len() == i,
                forall|j: int| 0 <= j < i ==> r@[j]@ == self@[j].uri,
            decreases n - i,
        {
            r.push(self.docs[i].uri().clone());
            i = i + 1;
        }
        r
    }
}

/// Opening, changing and closing documents never puts two documents under
/// one address.
pub proof fn lemma_store_keeps_uris_distinct(
    docs: Seq<DocumentView>,
    d: DocumentView,
    uri: Seq<char>,
)
    requires
        uris_distinct(docs),
    ensures
        uris_distinct(
            match index_of(docs, d.uri) {
                Some(i) => docs.update(i, d),
                None => docs.push(d),
            },
        ),
        index_of(docs, uri) matches Some(i) ==> uris_distinct(docs.remove(i)),
{
    lemma_index_of(docs, d.uri);
    lemma_index_of(docs, uri);
    match index_of(docs, d.uri) {
        Some(i) => {
            assert(uris_distinct(docs.update(i, d)));
        },
        None => {
            assert(uris_distinct(docs.push(d)));
        },
    }
    if let Some(i) = index_of(docs, uri) {
        assert forall|a: int, b: int| 0 <= a < b < docs.remove(i).len() implies docs.remove(
            i,
        )[a].uri != docs.remove(i)[b].uri by {
            let a2 = if a < i {
                a
            } else {
                a + 1
            };
            let b2 = if b < i {
                b
            } else {
                b + 1
            };
            assert(docs.remove(i)[a] == docs[a2]);
            assert(docs.remove(i)[b] == docs[b2]);
        }
    }
}

} // verus!
