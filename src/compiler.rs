use vstd::prelude::*;
use vstd::utf8::{decode_utf8, valid_utf8};

use crate::error::{ErrorKind, LspError};
use crate::settings::{IdeSettings, SettingsView};
use crate::text::{chars_of, push_char, string_of};

verus! {

/// The IDE queries that the compiler answers, with the byte offset each
/// one is about.
#[derive(Clone, Copy, Debug, PartialEq, Eq, Structural)]
pub enum IdeOperation {
    Check,
    Complete(u32),
    GotoDef(u32),
    Hover(u32),
}

/// The separator of the include path list: a character that is unlikely to
/// appear in a path.
pub const RECORD_SEPARATOR: char = '\u{1e}';

/// The texts of a sequence of strings.
pub open spec fn texts(v: Seq<String>) -> Seq<Seq<char>> {
    v.map_values(|s: String| s@)
}

/// The decimal digit for `d`, below ten.
pub open spec fn digit_char(d: nat) -> char {
    if d == 0 {
        '0'
    } else if d == 1 {
        '1'
    } else if d == 2 {
        '2'
    } else if d == 3 {
        '3'
    } else if d == 4 {
        '4'
    } else if d == 5 {
        '5'
    } else if d == 6 {
        '6'
    } else if d == 7 {
        '7'
    } else if d == 8 {
        '8'
    } else {
        '9'
    }
}

/// `n` written in decimal, without leading zeros.
pub open spec fn decimal(n: nat) -> Seq<char>
    decreases n,
{
    if n < 10 {
        seq![digit_char(n)]
    } else {
        decimal(n / 10).push(digit_char(n % 10))
    }
}

/// The arguments that select `op`; a check also carries the bound on the
/// number of problems.
pub open spec fn operation_args(op: IdeOperation, max_problems: u32) -> Seq<Seq<char>> {
    match op {
        IdeOperation::Check => seq!["--ide-check"@, decimal(max_problems as nat)],
        IdeOperation::Complete(o) => seq!["--ide-complete"@, decimal(o as nat)],
        IdeOperation::GotoDef(o) => seq!["--ide-goto-def"@, decimal(o as nat)],
        IdeOperation::Hover(o) => seq!["--ide-hover"@, decimal(o as nat)],
    }
}

/// The address names a local file.
pub open spec fn is_file_uri(uri: Seq<char>) -> bool {
    uri.len() >= 5 && uri.take(5) == seq!['f', 'i', 'l', 'e', ':']
}

/// What `Url::to_file_path` gives for the URL that `uri` spells.
pub uninterp spec fn file_path_of(uri: Seq<char>) -> Option<Seq<char>>;

/// What `Path::parent` gives for `path`.
pub uninterp spec fn parent_of(path: Seq<char>) -> Option<Seq<char>>;

/// The directories the compiler searches: the directory of the source file
/// where it is local, then the configured ones. None where a `file:` address
/// has no file path.
pub open spec fn include_paths(uri: Seq<char>, dirs: Seq<Seq<char>>) -> Option<Seq<Seq<char>>> {
    if is_file_uri(uri) {
        match file_path_of(uri) {
            None => None,
            Some(p) => Some(
                match parent_of(p) {
                    Some(d) => seq![d],
                    None => Seq::empty(),
                } + dirs,
            ),
        }
    } else {
        Some(dirs)
    }
}

/// `paths` joined by the record separator.
pub open spec fn joined(paths: Seq<Seq<char>>) -> Seq<char>
    decreases paths.len(),
{
    if paths.len() == 0 {
        Seq::empty()
    } else if paths.len() == 1 {
        paths[0]
    } else {
        joined(paths.drop_last()).push(RECORD_SEPARATOR) + paths.last()
    }
}

/// The whole argument list of one invocation on the temporary file `temp`.
pub open spec fn compiler_args_of(
    op: IdeOperation,
    settings: SettingsView,
    uri: Seq<char>,
    temp: Seq<char>,
) -> Option<Seq<Seq<char>>> {
    match include_paths(uri, settings.include_dirs) {
        None => None,
        Some(ps) => Some(
            operation_args(op, settings.max_number_of_problems) + (if ps.len() > 0 {
                seq!["--include-path"@, joined(ps)]
            } else {
                Seq::empty()
            }) + seq![temp],
        ),
    }
}

/// Relies on `Url::parse` and `Url::to_file_path`: the local path that a
/// `file:` URL names, where it names one.
#[verifier::external_body]
fn url_to_file_path(uri: &str) -> (r: Option<String>)
    ensures
        match r {
            Some(p) => file_path_of(uri@) == Some(p@),
            None => file_path_of(uri@) is None,
        },
{
    match tower_lsp::lsp_types::Url::parse(uri) {
        Ok(u) => match u.to_file_path() {
            Ok(p) => Some(p.to_string_lossy().into_owned()),
            Err(()) => None,
        },
        Err(_) => None,
    }
}

/// Relies on `Path::parent`: the path without its last component, where it
/// has one.
#[verifier::external_body]
fn path_parent(path: &str) -> (r: Option<String>)
    ensures
        match r {
            Some(p) => parent_of(path@) == Some(p@),
            None => parent_of(path@) is None,
        },
{
    match std::path::Path::new(path).parent() {
        Some(p) => Some(p.to_string_lossy().into_owned()),
        None => None,
    }
}

fn push_digit(s: &mut String, d: u64)
    requires
        d < 10,
    ensures
        final(s)@ == old(s)@.push(digit_char(d as nat)),
{
    let c = if d == 0 {
        '0'
    } else if d == 1 {
        '1'
    } else if d == 2 {
        '2'
    } else if d == 3 {
        '3'
    } else if d == 4 {
        '4'
    } else if d == 5 {
        '5'
    } else if d == 6 {
        '6'
    } else if d == 7 {
        '7'
    } else if d == 8 {
        '8'
    } else {
        '9'
    };
    push_char(s, c);
}

fn push_decimal(s: &mut String, n: u64)
    ensures
        final(s)@ == old(s)@ + decimal(n as nat),
    decreases n,
{
    if n >= 10 {
        push_decimal(s, n / 10);
    }
    push_digit(s, n % 10);
    proof {
        if n >= 10 {
            assert(old(s)@ + decimal(n as nat) =~= old(s)@ + decimal((n / 10) as nat) + seq![
                digit_char((n % 10) as nat),
            ]);
        } else {
            assert(old(s)@ + decimal(n as nat) =~= old(s)@.push(digit_char(n as nat)));
        }
    }
}

/// `n` in decimal.
pub fn decimal_string(n: u64) -> (r: String)
    ensures
        r@ == decimal(n as nat),
{
    let mut s = String::new();
    push_decimal(&mut s, n);
    proof {
        assert(s@ =~= decimal(n as nat));
    }
    s
}

/// Whether `uri` names a local file.
pub fn uri_is_file(uri: &str) -> (r: bool)
    ensures
        r == is_file_uri(uri@),
{
    let c = chars_of(uri);
    if c.len() < 5 {
        return false;
    }
    let r = c[0] == 'f' && c[1] == 'i' && c[2] == 'l' && c[3] == 'e' && c[4] == ':';
    proof {
        if r {
            assert(uri@.take(5) =~= seq!['f', 'i', 'l', 'e', ':']);
        } else {
            assert(!(uri@.take(5) =~= seq!['f', 'i', 'l', 'e', ':']) ==> uri@.take(5) != seq![
                'f',
                'i',
                'l',
                'e',
                ':',
            ]);
            if uri@.take(5) == seq!['f', 'i', 'l', 'e', ':'] {
                assert(uri@.take(5)[0] == 'f');
                assert(uri@.take(5)[1] == 'i');
                assert(uri@.take(5)[2] == 'l');
                assert(uri@.take(5)[3] == 'e');
                assert(uri@.take(5)[4] == ':');
            }
        }
    }
    r
}

/// The directories the compiler searches for a source at `uri`.
pub fn compute_include_paths(uri: &str, settings: &IdeSettings) -> (r: Result<Vec<String>, LspError>)
    ensures
        match include_paths(uri@, settings@.include_dirs) {
            Some(ps) => r matches Ok(v) && texts(v@) == ps,
            None => r matches Err(e) && e.kind == ErrorKind::InvalidParams,
        },
{
    let mut paths: Vec<String> = Vec::new();
    if uri_is_file(uri) {
        match url_to_file_path(uri) {
            None => {
                return Err(
                    LspError::new(ErrorKind::InvalidParams, "cannot convert URI to filesystem path"),
                );
            },
            Some(p) => {
                if let Some(d) = path_parent(p.as_str()) {
                    paths.push(d);
                }
            },
        }
    }
    let ghost start = texts(paths@);
    let n = settings.include_dirs.len();
    let mut i: usize = 0;
    while i < n
        invariant
            n == settings.include_dirs@.len(),
            i <= n,
            texts(paths@) == start + settings@.include_dirs.take(i as int),
        decreases n - i,
    {
        let d = settings.include_dirs[i].clone();
        let ghost before = paths@;
        paths.push(d);
        proof {
            assert(settings@.include_dirs[i as int] == settings.include_dirs@[i as int]@);
            assert(paths@ == before.push(d));
            assert(texts(paths@) =~= texts(before).push(d@));
            assert(settings@.include_dirs.take(i + 1) =~= settings@.include_dirs.take(
                i as int,
            ).push(d@));
            assert(texts(paths@) =~= start + settings@.include_dirs.take(i + 1));
        }
        i = i + 1;
    }
    proof {
        assert(settings@.include_dirs.take(n as int) =~= settings@.include_dirs);
        assert(texts(paths@) =~= include_paths(uri@, settings@.include_dirs)->0);
    }
    Ok(paths)
}

/// `paths` joined by the record separator.
pub fn join_paths(paths: &Vec<String>) -> (r: String)
    ensures
        r@ == joined(texts(paths@)),
{
    let mut out: Vec<char> = Vec::new();
    let n = paths.len();
    let mut i: usize = 0;
    while i < n
        invariant
            n == paths@.len(),
            i <= n,
            out@ == joined(texts(paths@).take(i as int)),
        decreases n - i,
    {
        let p = chars_of(paths[i].as_str());
        if i > 0 {
            out.push(RECORD_SEPARATOR);
        }
        let m = p.len();
        let mut j: usize = 0;
        let ghost before = out@;
        while j < m
            invariant
                m == p@.len(),
                j <= m,
                out@ == before + p@.take(j as int),
            decreases m - j,
        {
            out.push(p[j]);
            proof {
                assert(before + p@.take(j + 1) =~= out@);
            }
            j = j + 1;
        }
        proof {
            let ts = texts(paths@).take(i + 1);
            assert(ts.drop_last() =~= texts(paths@).take(i as int));
            assert(p@.take(m as int) =~= p@);
            if i == 0 {
                assert(before =~= Seq::<char>::empty());
                assert(out@ =~= ts[0]);
            } else {
                assert(out@ =~= joined(ts.drop_last()).push(RECORD_SEPARATOR) + ts.last());
            }
        }
        i = i + 1;
    }
    proof {
        assert(texts(paths@).take(n as int) =~= texts(paths@));
    }
    string_of(&out)
}

fn push_text(v: &mut Vec<String>, s: &str)
    ensures
        texts(final(v)@) == texts(old(v)@).push(s@),
{
    v.push(s.to_owned());
    proof {
        assert(texts(v@) =~= texts(old(v)@).push(s@));
    }
}

/// The arguments of one compiler invocation for `op` on the text of the
/// document at `uri`, held in the temporary file at `temp_path`.
pub fn compiler_args(op: IdeOperation, settings: &IdeSettings, uri: &str, temp_path: &str) -> (r:
    Result<Vec<String>, LspError>)
    ensures
        match compiler_args_of(op, settings@, uri@, temp_path@) {
            Some(a) => r matches Ok(v) && texts(v@) == a,
            None => r matches Err(e) && e.kind == ErrorKind::InvalidParams,
        },
{
    let paths = compute_include_paths(uri, settings)?;
    let mut args: Vec<String> = Vec::new();
    let (flag, n) = match op {
        IdeOperation::Check => ("--ide-check", settings.max_number_of_problems),
        IdeOperation::Complete(o) => ("--ide-complete", o),
        IdeOperation::GotoDef(o) => ("--ide-goto-def", o),
        IdeOperation::Hover(o) => ("--ide-hover", o),
    };
    push_text(&mut args, flag);
    let num = decimal_string(n as u64);
    push_text(&mut args, num.as_str());
    proof {
        assert(texts(args@) =~= operation_args(op, settings.max_number_of_problems));
    }
    let ghost base = texts(args@);
    if paths.len() > 0 {
        push_text(&mut args, "--include-path");
        let j = join_paths(&paths);
        push_text(&mut args, j.as_str());
        proof {
            assert(texts(args@) =~= base + seq!["--include-path"@, joined(texts(paths@))]);
        }
    } else {
        proof {
            assert(texts(args@) =~= base + Seq::<Seq<char>>::empty());
        }
    }
    let ghost mid = texts(args@);
    push_text(&mut args, temp_path);
    proof {
        assert(texts(args@) =~= mid + seq![temp_path@]);
    }
    Ok(args)
}

/// What one compiler invocation printed, with the command line that ran it.
#[derive(Clone, Debug, PartialEq, Eq)]
pub struct CompilerResponse {
    pub cmdline: String,
    pub stdout: String,
}

/// Relies on `String::from_utf8`: the text that the bytes encode, where they
/// are valid UTF-8.
#[verifier::external_body]
fn utf8_to_string(bytes: Vec<u8>) -> (r: Option<String>)
    ensures
        r is Some <==> valid_utf8(bytes@),
        r matches Some(s) ==> s@ == decode_utf8(bytes@),
{
    String::from_utf8(bytes).ok()
}

/// Reads the standard output of an invocation, whatever its exit status;
/// output that is not UTF-8 is a parse error.
pub fn decode_output(cmdline: String, stdout: Vec<u8>) -> (r: Result<CompilerResponse, LspError>)
    ensures
        valid_utf8(stdout@) ==> (r matches Ok(c) && c.cmdline@ == cmdline@ && c.stdout@
            == decode_utf8(stdout@)),
        !valid_utf8(stdout@) ==> (r matches Err(e) && e.kind == ErrorKind::Parse),
{
    match utf8_to_string(stdout) {
        Some(text) => Ok(CompilerResponse { cmdline, stdout: text }),
        None => Err(LspError::new(ErrorKind::Parse, "compiler output is not valid UTF-8")),
    }
}

} // verus!
