//! A fixed 32-byte identifier, kept in raw wire order.

use vstd::prelude::*;

verus! {

use crate::cursor::{Reader, spec_read_bytes};
use crate::hexcode::{HexError, decode_hex_digits, is_hex_digit, spec_hex_bytes};

/// How many bytes an `H256` holds.
pub const H256_LEN: usize = 32;

/// A 32-byte value read verbatim off the wire: no endianness transform and no
/// semantic interpretation. Equality is equality of the raw bytes.
#[derive(Debug)]
pub struct H256(pub Vec<u8>);

impl View for H256 {
    type V = Seq<u8>;

    open spec fn view(&self) -> Seq<u8> {
        self.0@
    }
}

impl DeepView for H256 {
    type V = Seq<u8>;

    open spec fn deep_view(&self) -> Seq<u8> {
        self.0@
    }
}

impl H256 {
    /// A well-formed hash holds exactly 32 bytes.
    pub open spec fn wf(&self) -> bool {
        self@.len() == H256_LEN
    }

    /// The all-zero hash.
    pub fn zero() -> (h: H256)
        ensures
            h@ == Seq::new(H256_LEN as nat, |i: int| 0u8),
            h.wf(),
    {
        let mut v: Vec<u8> = Vec::new();
        let mut i: usize = 0;
        while i < H256_LEN
            invariant
                i <= H256_LEN,
                v@ =~= Seq::new(i as nat, |k: int| 0u8),
            decreases H256_LEN - i,
        {
            v.push(0);
            i = i + 1;
            assert(v@ =~= Seq::new(i as nat, |k: int| 0u8));
        }
        assert(v@ =~= Seq::new(H256_LEN as nat, |i: int| 0u8));
        H256(v)
    }

    /// Read 32 raw bytes off the cursor, in wire order.
    pub fn from_bytes(r: &mut Reader<'_>) -> (res: Option<H256>)
        requires
            old(r).wf(),
        ensures
            final(r).bytes() == old(r).bytes(),
            final(r).wf(),
            match spec_read_bytes(old(r).bytes(), old(r).position(), H256_LEN as int) {
                Some((bs, j)) => res matches Some(h) && h@ == bs && h.wf() && final(r).position()
                    == j,
                None => res is None && final(r).position() == old(r).position(),
            },
    {
        match r.get_bytes(H256_LEN) {
            None => None,
            Some(v) => Some(H256(v)),
        }
    }

    /// Decode from exactly 64 hex digits, either case; anything else is a
    /// format error.
    pub fn from_hex(h: &[u8]) -> (res: Result<H256, HexError>)
        ensures
            h@.len() != 2 * H256_LEN ==> res == Err::<H256, HexError>(HexError::InvalidLength),
            h@.len() == 2 * H256_LEN && (exists|i: int| 0 <= i < h@.len() && !is_hex_digit(h@[i]))
                ==> res == Err::<H256, HexError>(HexError::InvalidContent),
            (h@.len() == 2 * H256_LEN && forall|i: int|
                0 <= i < h@.len() ==> is_hex_digit(#[trigger] h@[i])) ==> (res matches Ok(v) && v@
                == spec_hex_bytes(h@) && v.wf()),
    {
        if h.len() != 2 * H256_LEN {
            return Err(HexError::InvalidLength);
        }
        match decode_hex_digits(h) {
            Ok(v) => Ok(H256(v)),
            Err(e) => Err(e),
        }
    }
}

impl PartialEq for H256 {
    /// Raw byte equality.
    #[verifier::loop_isolation(false)]
    fn eq(&self, other: &H256) -> (r: bool) {
        let a = &self.0;
        let b = &other.0;
        if a.len() != b.len() {
            return false;
        }
        let mut i: usize = 0;
        while i < a.len()
            invariant
                a@.len() == b@.len(),
                i <= a@.len(),
                forall|k: int| 0 <= k < i ==> a@[k] == b@[k],
            decreases a@.len() - i,
        {
            if a[i] != b[i] {
                return false;
            }
            i = i + 1;
        }
        proof {
            assert(a@ =~= b@);
        }
        true
    }
}

impl Eq for H256 {

}

/// Lexicographic order of raw byte sequences.
pub open spec fn spec_lex_cmp(a: Seq<u8>, b: Seq<u8>) -> core::cmp::Ordering
    decreases a.len(),
{
    if a.len() == 0 && b.len() == 0 {
        core::cmp::Ordering::Equal
    } else if a.len() == 0 {
        core::cmp::Ordering::Less
    } else if b.len() == 0 {
        core::cmp::Ordering::Greater
    } else if a[0] < b[0] {
        core::cmp::Ordering::Less
    } else if a[0] > b[0] {
        core::cmp::Ordering::Greater
    } else {
        spec_lex_cmp(a.drop_first(), b.drop_first())
    }
}

impl PartialOrd for H256 {
    /// Lexicographic by raw bytes.
    #[verifier::loop_isolation(false)]
    fn partial_cmp(&self, other: &H256) -> (r: Option<core::cmp::Ordering>) {
        let a = &self.0;
        let b = &other.0;
        let n = if a.len() < b.len() {
            a.len()
        } else {
            b.len()
        };
        let mut i: usize = 0;
        proof {
            assert(a@.skip(0) =~= a@);
            assert(b@.skip(0) =~= b@);
        }
        while i < n
            invariant
                i <= n,
                spec_lex_cmp(a@, b@) == spec_lex_cmp(a@.skip(i as int), b@.skip(i as int)),
            decreases n - i,
        {
            proof {
                assert(a@.skip(i as int)[0] == a@[i as int]);
                assert(b@.skip(i as int)[0] == b@[i as int]);
            }
            if a[i] < b[i] {
                return Some(core::cmp::Ordering::Less);
            }
            if a[i] > b[i] {
                return Some(core::cmp::Ordering::Greater);
            }
            proof {
                assert(a@.skip(i as int).drop_first() =~= a@.skip(i + 1));
                assert(b@.skip(i as int).drop_first() =~= b@.skip(i + 1));
            }
            i = i + 1;
        }
        if a.len() == b.len() {
            proof {
                assert(a@.skip(i as int) =~= Seq::<u8>::empty());
                assert(b@.skip(i as int) =~= Seq::<u8>::empty());
            }
            Some(core::cmp::Ordering::Equal)
        } else if a.len() < b.len() {
            proof {
                assert(a@.skip(i as int) =~= Seq::<u8>::empty());
            }
            Some(core::cmp::Ordering::Less)
        } else {
            proof {
                assert(b@.skip(i as int) =~= Seq::<u8>::empty());
            }
            Some(core::cmp::Ordering::Greater)
        }
    }
}

impl vstd::std_specs::cmp::PartialOrdSpecImpl for H256 {
    open spec fn obeys_partial_cmp_spec() -> bool {
        true
    }

    open spec fn partial_cmp_spec(&self, other: &H256) -> Option<core::cmp::Ordering> {
        Some(spec_lex_cmp(self@, other@))
    }
}

impl vstd::std_specs::cmp::PartialEqSpecImpl for H256 {
    open spec fn obeys_eq_spec() -> bool {
        true
    }

    open spec fn eq_spec(&self, other: &H256) -> bool {
        self@ == other@
    }
}

} // verus!
