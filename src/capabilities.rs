use vstd::prelude::*;

use crate::error::{ErrorKind, LspError};

verus! {

/// What the client said it supports, latched once during the handshake.
pub struct CapabilityFlags {
    publish_diagnostics: Option<bool>,
    change_configuration: Option<bool>,
    lookup_configuration: Option<bool>,
}

/// The flags as values: each is unset until the handshake.
pub struct CapabilityView {
    pub publish_diagnostics: Option<bool>,
    pub change_configuration: Option<bool>,
    pub lookup_configuration: Option<bool>,
}

impl View for CapabilityFlags {
    type V = CapabilityView;

    closed spec fn view(&self) -> CapabilityView {
        CapabilityView {
            publish_diagnostics: self.publish_diagnostics,
            change_configuration: self.change_configuration,
            lookup_configuration: self.lookup_configuration,
        }
    }
}

/// The three flags are set.
pub open spec fn latched(c: CapabilityView) -> bool {
    c.publish_diagnostics is Some && c.change_configuration is Some
        && c.lookup_configuration is Some
}

impl CapabilityFlags {
    /// Flags that the handshake has yet to set.
    pub fn new() -> (r: CapabilityFlags)
        ensures
            r@.publish_diagnostics is None,
            r@.change_configuration is None,
            r@.lookup_configuration is None,
    {
        CapabilityFlags {
            publish_diagnostics: None,
            change_configuration: None,
            lookup_configuration: None,
        }
    }

    /// Sets the three flags; fails, changing nothing, where any of them is
    /// already set.
    pub fn latch(
        &mut self,
        publish_diagnostics: bool,
        change_configuration: bool,
        lookup_configuration: bool,
    ) -> (r: Result<(), LspError>)
        ensures
            old(self)@.publish_diagnostics is None && old(self)@.change_configuration is None
                && old(self)@.lookup_configuration is None ==> r is Ok && final(self)@ == (
            CapabilityView {
                publish_diagnostics: Some(publish_diagnostics),
                change_configuration: Some(change_configuration),
                lookup_configuration: Some(lookup_configuration),
            }),
            !(old(self)@.publish_diagnostics is None && old(self)@.change_configuration is None
                && old(self)@.lookup_configuration is None) ==> (r matches Err(e) && e.kind
                == ErrorKind::Internal && final(self)@ == old(self)@),
    {
        if self.publish_diagnostics.is_some() || self.change_configuration.is_some()
            || self.lookup_configuration.is_some() {
            return Err(
                LspError::new(ErrorKind::Internal, "server value initialized out of sequence"),
            );
        }
        self.publish_diagnostics = Some(publish_diagnostics);
        self.change_configuration = Some(change_configuration);
        self.lookup_configuration = Some(lookup_configuration);
        Ok(())
    }

    /// Whether the handshake has set the flags.
    pub fn is_latched(&self) -> (r: bool)
        ensures
            r == latched(self@),
    {
        self.publish_diagnostics.is_some() && self.change_configuration.is_some()
            && self.lookup_configuration.is_some()
    }

    /// Whether the client takes published diagnostics.
    pub fn can_publish_diagnostics(&self) -> (r: bool)
        requires
            latched(self@),
        ensures
            self@.publish_diagnostics == Some(r),
    {
        match self.publish_diagnostics {
            Some(b) => b,
            None => false,
        }
    }

    /// Whether the client sends configuration-change notifications.
    pub fn can_change_configuration(&self) -> (r: bool)
        requires
            latched(self@),
        ensures
            self@.change_configuration == Some(r),
    {
        match self.change_configuration {
            Some(b) => b,
            None => false,
        }
    }

    /// Whether the client answers configuration pulls scoped to a document.
    pub fn can_lookup_configuration(&self) -> (r: bool)
        requires
            latched(self@),
        ensures
            self@.lookup_configuration == Some(r),
    {
        match self.lookup_configuration {
            Some(b) => b,
            None => false,
        }
    }
}

} // verus!
