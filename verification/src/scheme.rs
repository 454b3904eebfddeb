//! The closed set of proxy protocols and its canonical string forms.

use vstd::prelude::*;

verus! {

/// One of the supported proxy protocols. The set is closed: candidate
/// normalization enumerates exactly these four, in declaration order.
#[derive(Clone, Copy, Debug, PartialEq, Eq, Structural)]
pub enum Scheme {
    Http,
    Https,
    Socks4,
    Socks5,
}

impl Scheme {
    /// The canonical lowercase name of the scheme.
    pub open spec fn spec_value(self) -> Seq<char> {
        match self {
            Scheme::Http => "http"@,
            Scheme::Https => "https"@,
            Scheme::Socks4 => "socks4"@,
            Scheme::Socks5 => "socks5"@,
        }
    }

    /// Canonical lowercase string form of the scheme.
    pub fn value(&self) -> (r: &'static str)
        ensures
            r@ == self.spec_value(),
    {
        match *self {
            Scheme::Http => "http",
            Scheme::Https => "https",
            Scheme::Socks4 => "socks4",
            Scheme::Socks5 => "socks5",
        }
    }

    /// All supported schemes, in the fixed evaluation order.
    pub open spec fn spec_all() -> Seq<Scheme> {
        seq![Scheme::Http, Scheme::Https, Scheme::Socks4, Scheme::Socks5]
    }

    /// The supported schemes in evaluation order: HTTP, HTTPS, SOCKS4, SOCKS5.
    pub fn iter() -> (r: Vec<Scheme>)
        ensures
            r@ == Scheme::spec_all(),
    {
        let mut v: Vec<Scheme> = Vec::new();
        v.push(Scheme::Http);
        v.push(Scheme::Https);
        v.push(Scheme::Socks4);
        v.push(Scheme::Socks5);
        proof {
            assert(v@ =~= Scheme::spec_all());
        }
        v
    }
}

} // verus!
