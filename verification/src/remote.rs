//! Resolved remote endpoints and resolution of `host:port` specifications.

use vstd::prelude::*;
use vstd::slice::slice_index_get;
use crate::numeric::{all_digits, spec_dec_value, spec_is_digit};

verus! {

/// Abstract value of a resolved endpoint: address text and numeric port.
pub ghost struct RemoteAddrV {
    pub address: Seq<char>,
    pub port: u16,
}

/// A resolved remote endpoint the spawned process should connect to.
pub struct RemoteAddr {
    address: String,
    port: u16,
}

impl View for RemoteAddr {
    type V = RemoteAddrV;

    closed spec fn view(&self) -> RemoteAddrV {
        RemoteAddrV { address: self.address@, port: self.port }
    }
}

impl RemoteAddr {
    /// Builds an endpoint from address text and a port number.
    pub fn new(address: &str, port: u16) -> (r: Self)
        ensures
            r@ == (RemoteAddrV { address: address@, port: port }),
    {
        RemoteAddr { address: address.to_owned(), port }
    }

    /// The address text of this endpoint.
    pub fn address(&self) -> (r: &str)
        ensures
            r@ == self@.address,
    {
        self.address.as_str()
    }

    /// The port of this endpoint.
    pub fn port(&self) -> (r: u16)
        ensures
            r == self@.port,
    {
        self.port
    }

    /// A second endpoint value equal to this one.
    pub fn duplicate(&self) -> (r: Self)
        ensures
            r@ == self@,
    {
        RemoteAddr { address: self.address.clone(), port: self.port }
    }
}

/// Why an endpoint specification failed to resolve.
#[derive(Debug)]
pub enum ResolveError {
    /// The specification has no `:` separating address from port.
    MissingSeparator,
    /// The address part before the last `:` is empty.
    EmptyAddress,
    /// The port part after the last `:` is empty or not all decimal digits.
    InvalidPort,
    /// The port part denotes a number larger than 65535.
    PortOutOfRange,
}

/// Index of the last `:` in `s`, or -1 if there is none.
pub open spec fn last_colon(s: Seq<char>) -> int
    decreases s.len(),
{
    if s.len() == 0 {
        -1
    } else if s[s.len() - 1] == ':' {
        s.len() - 1
    } else {
        last_colon(s.drop_last())
    }
}

/// A string without `:` has no last colon.
pub proof fn lemma_last_colon_none(s: Seq<char>)
    requires
        forall|j: int| 0 <= j < s.len() ==> #[trigger] s[j] != ':',
    ensures
        last_colon(s) == -1,
    decreases s.len(),
{
    if s.len() > 0 {
        assert(forall|j: int| 0 <= j < s.drop_last().len() ==> #[trigger] s.drop_last()[j] != ':');
        lemma_last_colon_none(s.drop_last());
    }
}

/// A `:` with no later `:` is the last colon.
pub proof fn lemma_last_colon_at(s: Seq<char>, k: int)
    requires
        0 <= k < s.len(),
        s[k] == ':',
        forall|j: int| k < j < s.len() ==> #[trigger] s[j] != ':',
    ensures
        last_colon(s) == k,
    decreases s.len(),
{
    if k < s.len() - 1 {
        assert(forall|j: int| k < j < s.drop_last().len() ==> #[trigger] s.drop_last()[j] != ':');
        lemma_last_colon_at(s.drop_last(), k);
    }
}

/// The endpoint denoted by a `host:port` specification string, if it is
/// well formed: the last `:` separates a non-empty address from a port
/// written in decimal digits whose value fits in 16 bits.
pub open spec fn spec_resolve_str(s: Seq<char>) -> Option<RemoteAddrV> {
    let k = last_colon(s);
    if k <= 0 {
        None
    } else {
        let port = s.subrange(k + 1, s.len() as int);
        if port.len() == 0 || !all_digits(port) {
            None
        } else if spec_dec_value(port) > 65535 {
            None
        } else {
            Some(RemoteAddrV { address: s.subrange(0, k), port: spec_dec_value(port) as u16 })
        }
    }
}

/// Index of the last `:` of `s`, if any.
fn find_last_colon(s: &str) -> (r: Option<usize>)
    ensures
        match r {
            Some(k) => last_colon(s@) == k as int && (k as int) < s@.len() && s@[k as int] == ':',
            None => last_colon(s@) == -1,
        },
{
    let n = s.unicode_len();
    let mut i = n;
    while i > 0
        invariant
            i <= n,
            n == s@.len(),
            forall|j: int| i <= j < n ==> #[trigger] s@[j] != ':',
        decreases i,
    {
        if s.get_char(i - 1) == ':' {
            proof {
                lemma_last_colon_at(s@, (i - 1) as int);
            }
            return Some(i - 1);
        }
        i = i - 1;
    }
    proof {
        lemma_last_colon_none(s@);
    }
    None
}

/// Reads a port written in decimal digits, with the exact failure reason.
fn parse_port(p: &str) -> (r: Result<u16, ResolveError>)
    ensures
        match r {
            Ok(v) => p@.len() > 0 && all_digits(p@) && spec_dec_value(p@) == v as int,
            Err(ResolveError::InvalidPort) => p@.len() == 0 || !all_digits(p@),
            Err(ResolveError::PortOutOfRange) => p@.len() > 0 && all_digits(p@) && spec_dec_value(
                p@,
            ) > 65535,
            Err(_) => false,
        },
{
    let n = p.unicode_len();
    if n == 0 {
        return Err(ResolveError::InvalidPort);
    }
    let mut i: usize = 0;
    while i < n
        invariant
            i <= n,
            n == p@.len(),
            forall|j: int| 0 <= j < i ==> spec_is_digit(#[trigger] p@[j]),
        decreases n - i,
    {
        let u = p.get_char(i) as u32;
        if u < 48 || u > 57 {
            assert(!spec_is_digit(p@[i as int]));
            return Err(ResolveError::InvalidPort);
        }
        i = i + 1;
    }
    assert(all_digits(p@));
    let mut val: u32 = 0;
    i = 0;
    while i < n
        invariant
            i <= n,
            n == p@.len(),
            all_digits(p@),
            val as int == spec_dec_value(p@.subrange(0, i as int)),
            val <= 65535,
        decreases n - i,
    {
        let u = p.get_char(i) as u32;
        assert(spec_is_digit(p@[i as int]));
        let next = val * 10 + (u - 48);
        proof {
            let pre = p@.subrange(0, (i + 1) as int);
            assert(pre.drop_last() =~= p@.subrange(0, i as int));
            assert(pre.last() == p@[i as int]);
        }
        if next > 65535 {
            proof {
                crate::numeric::lemma_dec_value_prefix_le(p@, (i + 1) as int);
            }
            return Err(ResolveError::PortOutOfRange);
        }
        val = next;
        i = i + 1;
    }
    proof {
        assert(p@.subrange(0, n as int) =~= p@);
    }
    Ok(val as u16)
}

/// Resolves one `host:port` specification string, saying exactly which
/// malformation was found on failure.
pub fn resolve_str(s: &str) -> (r: Result<RemoteAddr, ResolveError>)
    ensures
        match r {
            Ok(a) => spec_resolve_str(s@) == Some(a@),
            Err(ResolveError::MissingSeparator) => last_colon(s@) == -1,
            Err(ResolveError::EmptyAddress) => last_colon(s@) == 0,
            Err(ResolveError::InvalidPort) => last_colon(s@) >= 1 && {
                let port = s@.subrange(last_colon(s@) + 1, s@.len() as int);
                port.len() == 0 || !all_digits(port)
            },
            Err(ResolveError::PortOutOfRange) => last_colon(s@) >= 1 && {
                let port = s@.subrange(last_colon(s@) + 1, s@.len() as int);
                port.len() > 0 && all_digits(port) && spec_dec_value(port) > 65535
            },
        },
        r is Err <==> spec_resolve_str(s@) is None,
{
    let n = s.unicode_len();
    match find_last_colon(s) {
        None => Err(ResolveError::MissingSeparator),
        Some(k) => {
            if k == 0 {
                return Err(ResolveError::EmptyAddress);
            }
            let port_str = s.substring_char(k + 1, n);
            match parse_port(port_str) {
                Ok(v) => {
                    let addr = s.substring_char(0, k);
                    Ok(RemoteAddr::new(addr, v))
                },
                Err(e) => Err(e),
            }
        },
    }
}

/// The abstract values of a sequence of endpoints, in order.
pub open spec fn remote_views(v: Seq<RemoteAddr>) -> Seq<RemoteAddrV> {
    Seq::new(v.len(), |i: int| v[i]@)
}

/// A value that the endpoint resolver accepts: a single endpoint, one
/// `host:port` string, or an ordered collection of either.
pub trait ToRemoteAddrs: Sized {
    /// The ordered endpoint list this value denotes, if it is well formed.
    spec fn spec_resolved(&self) -> Option<Seq<RemoteAddrV>>;

    /// Resolves this value into its ordered endpoint list.
    fn to_remote_addrs(self) -> (r: Result<Vec<RemoteAddr>, ResolveError>)
        ensures
            match r {
                Ok(v) => self.spec_resolved() == Some(remote_views(v@)),
                Err(_) => self.spec_resolved() is None,
            },
    ;
}

impl ToRemoteAddrs for RemoteAddr {
    open spec fn spec_resolved(&self) -> Option<Seq<RemoteAddrV>> {
        Some(seq![self@])
    }

    fn to_remote_addrs(self) -> (r: Result<Vec<RemoteAddr>, ResolveError>) {
        let ghost gv = self@;
        let mut v: Vec<RemoteAddr> = Vec::new();
        v.push(self);
        proof {
            assert(remote_views(v@) =~= seq![gv]);
        }
        Ok(v)
    }
}

impl ToRemoteAddrs for &str {
    open spec fn spec_resolved(&self) -> Option<Seq<RemoteAddrV>> {
        match spec_resolve_str(self@) {
            Some(a) => Some(seq![a]),
            None => None,
        }
    }

    fn to_remote_addrs(self) -> (r: Result<Vec<RemoteAddr>, ResolveError>) {
        match resolve_str(self) {
            Ok(a) => {
                let ghost gv = a@;
                let mut v: Vec<RemoteAddr> = Vec::new();
                v.push(a);
                proof {
                    assert(remote_views(v@) =~= seq![gv]);
                }
                Ok(v)
            },
            Err(e) => Err(e),
        }
    }
}

impl ToRemoteAddrs for &[RemoteAddr] {
    open spec fn spec_resolved(&self) -> Option<Seq<RemoteAddrV>> {
        Some(remote_views(self@))
    }

    fn to_remote_addrs(self) -> (r: Result<Vec<RemoteAddr>, ResolveError>) {
        let n = self.len();
        let mut v: Vec<RemoteAddr> = Vec::new();
        let mut i: usize = 0;
        while i < n
            invariant
                i <= n,
                n == self@.len(),
                v@.len() == i,
                forall|j: int| 0 <= j < i ==> (#[trigger] v@[j])@ == self@[j]@,
            decreases n - i,
        {
            v.push(slice_index_get(self, i).duplicate());
            i = i + 1;
        }
        proof {
            assert(remote_views(v@) =~= remote_views(self@));
        }
        Ok(v)
    }
}

impl ToRemoteAddrs for &[&str] {
    open spec fn spec_resolved(&self) -> Option<Seq<RemoteAddrV>> {
        if forall|j: int|
            0 <= j < self@.len() ==> spec_resolve_str((#[trigger] self@[j])@) is Some {
            Some(Seq::new(self@.len(), |j: int| spec_resolve_str(self@[j]@).unwrap()))
        } else {
            None
        }
    }

    fn to_remote_addrs(self) -> (r: Result<Vec<RemoteAddr>, ResolveError>) {
        let n = self.len();
        let mut v: Vec<RemoteAddr> = Vec::new();
        let mut i: usize = 0;
        while i < n
            invariant
                i <= n,
                n == self@.len(),
                v@.len() == i,
                forall|j: int| 0 <= j < i ==> spec_resolve_str((#[trigger] self@[j])@) is Some,
                forall|j: int|
                    0 <= j < i ==> (#[trigger] v@[j])@ == spec_resolve_str(self@[j]@).unwrap(),
            decreases n - i,
        {
            match resolve_str(*slice_index_get(self, i)) {
                Ok(a) => {
                    v.push(a);
                },
                Err(e) => {
                    return Err(e);
                },
            }
            i = i + 1;
        }
        proof {
            assert(remote_views(v@) =~= Seq::new(
                self@.len(),
                |j: int| spec_resolve_str(self@[j]@).unwrap(),
            ));
        }
        Ok(v)
    }
}

} // verus!
