//! The hashed subpackets of a signature that decide whether it may be
//! exported: the exportable certification subpacket (type 4) and the
//! revocation key subpacket (type 12) with its sensitive flag.
use vstd::prelude::*;
use crate::header::be32_value;
use crate::packet::Signature;

verus! {

/// A subpacket: its type (without the critical bit) and its body.
pub type Subpacket = (u8, Seq<u8>);

/// Reads a subpacket length from the front of `a` (RFC 4880,
/// 5.2.3.1): the length, which counts the type octet and the body, and
/// the number of octets the length took.
pub open spec fn subpacket_length(a: Seq<u8>) -> Option<(nat, nat)> {
    if a.len() >= 1 && a[0] < 192 {
        Some((a[0] as nat, 1))
    } else if a.len() >= 2 && 192 <= a[0] < 255 {
        Some((((a[0] - 192) * 256 + a[1] + 192) as nat, 2))
    } else if a.len() >= 5 && a[0] == 255 {
        Some((be32_value(a[1], a[2], a[3], a[4]) as nat, 5))
    } else {
        None
    }
}

/// The subpacket at the front of `a`, and the number of octets it
/// takes; nothing where `a` does not start with a whole subpacket.
pub open spec fn first_subpacket(a: Seq<u8>) -> Option<(Subpacket, nat)> {
    match subpacket_length(a) {
        Some((len, h)) => if len >= 1 && h + len <= a.len() {
            Some((((a[h as int] & 0x7Fu8), a.subrange((h + 1) as int, (h + len) as int)), h + len))
        } else {
            None
        },
        None => None,
    }
}

/// The subpackets of a subpacket area, up to the end of the area or to
/// the first octets that do not form a whole subpacket.
pub open spec fn subpackets(a: Seq<u8>) -> Seq<Subpacket>
    decreases a.len(),
{
    match first_subpacket(a) {
        Some((sp, n)) => if 0 < n <= a.len() {
            seq![sp] + subpackets(a.skip(n as int))
        } else {
            Seq::empty()
        },
        None => Seq::empty(),
    }
}

/// The value of the last exportable certification subpacket of `s`
/// (a type 4 subpacket with a one octet body), if there is one.
pub open spec fn exportable_certification(s: Seq<Subpacket>) -> Option<bool>
    decreases s.len(),
{
    if s.len() == 0 {
        None
    } else if s.last().0 == 4 && s.last().1.len() == 1 {
        Some(s.last().1[0] != 0)
    } else {
        exportable_certification(s.drop_last())
    }
}

/// Whether `sp` is a revocation key subpacket (type 12, 22 octets of
/// body) whose class has the sensitive flag (0x40).
pub open spec fn is_sensitive_revocation_key(sp: Subpacket) -> bool {
    sp.0 == 12 && sp.1.len() == 22 && (sp.1[0] & 0x40u8) != 0
}

/// Whether `s` holds a sensitive revocation key subpacket.
pub open spec fn has_sensitive_revocation_key(s: Seq<Subpacket>) -> bool
    decreases s.len(),
{
    if s.len() == 0 {
        false
    } else {
        is_sensitive_revocation_key(s.last()) || has_sensitive_revocation_key(s.drop_last())
    }
}

/// Reads the subpacket that starts at `pos` in `a`: its type, where its
/// body starts and ends, and where the next subpacket starts.
fn next_subpacket(a: &[u8], pos: usize) -> (r: Option<(u8, usize, usize)>)
    requires
        pos <= a@.len(),
    ensures
        match first_subpacket(a@.skip(pos as int)) {
            Some((sp, n)) => r matches Some((t, start, end)) && t == sp.0 && pos < start <= end
                && end == pos + n && end <= a@.len() && a@.subrange(start as int, end as int)
                == sp.1,
            None => r is None,
        },
{
    let rest: usize = a.len() - pos;
    let ghost s = a@.skip(pos as int);
    if rest == 0 {
        return None;
    }
    let a0: u8 = a[pos];
    let len: usize;
    let h: usize;
    if a0 < 192 {
        len = a0 as usize;
        h = 1;
    } else if a0 < 255 {
        if rest < 2 {
            return None;
        }
        len = (a0 as usize - 192) * 256 + a[pos + 1] as usize + 192;
        h = 2;
    } else {
        if rest < 5 {
            return None;
        }
        let v: u32 = (a[pos + 1] as u32) * 0x100_0000 + (a[pos + 2] as u32) * 0x1_0000 + (a[pos
            + 3] as u32) * 0x100 + (a[pos + 4] as u32);
        len = v as usize;
        h = 5;
    }
    assert(subpacket_length(s) == Some((len as nat, h as nat)));
    if len < 1 || len > rest - h {
        return None;
    }
    let t: u8 = a[pos + h] & 0x7F;
    assert(s.subrange(h + 1, h + len) =~= a@.subrange(pos + h + 1, pos + h + len));
    Some((t, pos + h + 1, pos + h + len))
}

impl Signature {
    /// The subpackets of the hashed area.
    pub open spec fn spec_hashed_subpackets(&self) -> Seq<Subpacket> {
        subpackets(self.hashed_area@)
    }

    /// Whether the signature may be exported: its hashed area does not
    /// mark it as a non-exportable certification, and names no
    /// sensitive revocation key.
    pub open spec fn spec_exportable(&self) -> bool {
        &&& exportable_certification(self.spec_hashed_subpackets()) != Some(false)
        &&& !has_sensitive_revocation_key(self.spec_hashed_subpackets())
    }

    /// Returns whether the signature may be exported.
    pub fn exportable(&self) -> (b: bool)
        ensures
            b == self.spec_exportable(),
    {
        let a: &[u8] = self.hashed_area.as_slice();
        let mut pos: usize = 0;
        let mut flag: Option<bool> = None;
        let mut sensitive: bool = false;
        let ghost mut seen: Seq<Subpacket> = Seq::empty();
        assert(a@.skip(0) =~= a@);
        loop
            invariant
                pos <= a@.len(),
                subpackets(a@) == seen + subpackets(a@.skip(pos as int)),
                flag == exportable_certification(seen),
                sensitive == has_sensitive_revocation_key(seen),
            ensures
                subpackets(a@) == seen,
                flag == exportable_certification(seen),
                sensitive == has_sensitive_revocation_key(seen),
            decreases a@.len() - pos,
        {
            let ghost s = a@.skip(pos as int);
            match next_subpacket(a, pos) {
                None => {
                    assert(subpackets(s) =~= Seq::<Subpacket>::empty());
                    assert(seen + subpackets(s) =~= seen);
                    break ;
                },
                Some((t, start, end)) => {
                    let ghost sp = (t, a@.subrange(start as int, end as int));
                    let ghost n = (end - pos) as nat;
                    assert(s.skip(n as int) =~= a@.skip(end as int));
                    assert(subpackets(s) == seq![sp] + subpackets(a@.skip(end as int)));
                    let body_len: usize = end - start;
                    if t == 4 && body_len == 1 {
                        flag = Some(a[start] != 0);
                    }
                    if t == 12 && body_len == 22 && (a[start] & 0x40) != 0 {
                        sensitive = true;
                    }
                    proof {
                        let seen2 = seen.push(sp);
                        assert(seen2.drop_last() =~= seen);
                        assert(seen2.last() == sp);
                        assert(seen + (seq![sp] + subpackets(a@.skip(end as int))) =~= seen2
                            + subpackets(a@.skip(end as int)));
                        seen = seen2;
                    }
                    pos = end;
                },
            }
        }
        match flag {
            Some(false) => false,
            _ => !sensitive,
        }
    }
}

} // verus!
