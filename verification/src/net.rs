//! Network interfaces as `ip -j addr` lists them.
use vstd::prelude::*;
use crate::text::{chars_of, is_text, string_of};

verus! {

/// An address of an interface.
pub struct AddrInfo {
    pub local: String,
    pub family: String,
}

/// A network interface.
pub struct Interface {
    pub name: String,
    pub operstate: String,
    pub addr_info: Vec<AddrInfo>,
    pub link_type: String,
    pub mtu: u32,
}

/// The link type of an interface for which `ip` gives none.
pub fn default_link_type() -> (s: String)
    ensures
        s@ == "unknown"@,
{
    string_of(&chars_of("unknown"))
}

/// The first IPv4 (`inet`) address of the interface, if any.
pub open spec fn first_ipv4(addrs: Seq<AddrInfo>) -> Option<int>
    decreases addrs.len(),
{
    if addrs.len() == 0 {
        None
    } else {
        match first_ipv4(addrs.drop_last()) {
            Some(i) => Some(i),
            None => if addrs.last().family@ == "inet"@ {
                Some(addrs.len() - 1)
            } else {
                None
            },
        }
    }
}

impl Interface {
    /// The local IPv4 address of the interface, or `-` where it has none.
    pub fn ipv4(&self) -> (s: String)
        ensures
            s@ == (match first_ipv4(self.addr_info@) {
                Some(i) => self.addr_info@[i].local@,
                None => "-"@,
            }),
    {
        let n = self.addr_info.len();
        assert(self.addr_info@.take(0) =~= Seq::<AddrInfo>::empty());
        for k in 0..n
            invariant
                n == self.addr_info@.len(),
                first_ipv4(self.addr_info@.take(k as int)) is None,
        {
            assert(self.addr_info@.take(k + 1).drop_last() =~= self.addr_info@.take(k as int));
            if is_text(&self.addr_info[k].family, "inet") {
                assert(first_ipv4(self.addr_info@.take(k + 1)) == Some(k as int));
                proof {
                    lemma_first_ipv4_prefix(self.addr_info@, k + 1);
                }
                return string_of(&chars_of(self.addr_info[k].local.as_str()));
            }
        }
        assert(self.addr_info@.take(n as int) =~= self.addr_info@);
        string_of(&chars_of("-"))
    }
}

/// Once a prefix holds an IPv4 address, the first one stays the first.
pub proof fn lemma_first_ipv4_prefix(addrs: Seq<AddrInfo>, k: int)
    requires
        0 <= k <= addrs.len(),
        first_ipv4(addrs.take(k)) is Some,
    ensures
        first_ipv4(addrs) == first_ipv4(addrs.take(k)),
    decreases addrs.len() - k,
{
    if k < addrs.len() {
        assert(addrs.take(k + 1).drop_last() =~= addrs.take(k));
        lemma_first_ipv4_prefix(addrs, k + 1);
    } else {
        assert(addrs.take(k) =~= addrs);
    }
}

} // verus!
