//! Checks whether a string is a well-formed fully qualified domain name by
//! the length limits of the DNS wire format.
use vstd::prelude::*;

pub mod laws;
pub mod name;

pub use name::is_valid_fqdn;
use name::is_fqdn;

verus! {

/// Text that can be checked for being a well-formed fully qualified domain
/// name.
pub trait FQDN {
    /// The characters that the check reads.
    spec fn fqdn_text(&self) -> Seq<char>;

    /// Whether the text is a well-formed fully qualified domain name.
    fn is_valid_fqdn(&self) -> (r: bool)
        ensures
            r == is_fqdn(self.fqdn_text()),
    ;
}

impl FQDN for str {
    open spec fn fqdn_text(&self) -> Seq<char> {
        self@
    }

    fn is_valid_fqdn(&self) -> (r: bool) {
        name::is_valid_fqdn(self)
    }
}

} // verus!
