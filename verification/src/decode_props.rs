//! Properties of the wire-format decoder: what the witness marker commits
//! the decoder to, and that a truncated encoding never decodes.

use vstd::prelude::*;

verus! {

use crate::cursor::{
    spec_read_blob_list,
    spec_read_blobs_n,
    spec_read_bytes,
    spec_read_u8,
    spec_read_u16_le,
    spec_read_u32_le,
    spec_read_u64_le,
    spec_read_varuint,
    spec_read_varuint_bytes,
};
use crate::block_hex::{
    BlockView,
    InputView,
    OutputView,
    TxView,
    spec_read_block,
    spec_read_header,
    spec_read_input,
    spec_read_input_list,
    spec_read_inputs_n,
    spec_read_output,
    spec_read_output_list,
    spec_read_outputs_n,
    spec_read_stacks_n,
    spec_read_tx,
    spec_read_tx_tail,
    spec_read_txs_n,
};

/// `p` is an initial segment of `s`.
pub open spec fn is_prefix_of(p: Seq<u8>, s: Seq<u8>) -> bool {
    p.len() <= s.len() && s.subrange(0, p.len() as int) == p
}

proof fn lemma_prefix_index(p: Seq<u8>, s: Seq<u8>)
    requires
        is_prefix_of(p, s),
    ensures
        forall|m: int| 0 <= m < p.len() ==> s[m] == p[m],
{
    assert forall|m: int| 0 <= m < p.len() implies s[m] == p[m] by {
        assert(s.subrange(0, p.len() as int)[m] == s[m]);
    }
}

proof fn lemma_prefix_subrange(p: Seq<u8>, s: Seq<u8>, a: int, b: int)
    requires
        is_prefix_of(p, s),
        0 <= a <= b <= p.len(),
    ensures
        s.subrange(a, b) == p.subrange(a, b),
{
    lemma_prefix_index(p, s);
    assert(s.subrange(a, b) =~= p.subrange(a, b));
}

proof fn lemma_extends_u8(p: Seq<u8>, s: Seq<u8>, i: int)
    requires
        is_prefix_of(p, s),
        spec_read_u8(p, i) is Some,
    ensures
        spec_read_u8(s, i) == spec_read_u8(p, i),
{
    lemma_prefix_index(p, s);
}

proof fn lemma_extends_u16(p: Seq<u8>, s: Seq<u8>, i: int)
    requires
        is_prefix_of(p, s),
        spec_read_u16_le(p, i) is Some,
    ensures
        spec_read_u16_le(s, i) == spec_read_u16_le(p, i),
{
    lemma_prefix_subrange(p, s, i, i + 2);
}

proof fn lemma_extends_u32(p: Seq<u8>, s: Seq<u8>, i: int)
    requires
        is_prefix_of(p, s),
        spec_read_u32_le(p, i) is Some,
    ensures
        spec_read_u32_le(s, i) == spec_read_u32_le(p, i),
{
    lemma_prefix_subrange(p, s, i, i + 4);
}

proof fn lemma_extends_u64(p: Seq<u8>, s: Seq<u8>, i: int)
    requires
        is_prefix_of(p, s),
        spec_read_u64_le(p, i) is Some,
    ensures
        spec_read_u64_le(s, i) == spec_read_u64_le(p, i),
{
    lemma_prefix_subrange(p, s, i, i + 8);
}

proof fn lemma_extends_bytes(p: Seq<u8>, s: Seq<u8>, i: int, n: int)
    requires
        is_prefix_of(p, s),
        spec_read_bytes(p, i, n) is Some,
    ensures
        spec_read_bytes(s, i, n) == spec_read_bytes(p, i, n),
{
    lemma_prefix_subrange(p, s, i, i + n);
}

proof fn lemma_extends_varuint(p: Seq<u8>, s: Seq<u8>, i: int)
    requires
        is_prefix_of(p, s),
        spec_read_varuint(p, i) is Some,
    ensures
        spec_read_varuint(s, i) == spec_read_varuint(p, i),
{
    lemma_extends_u8(p, s, i);
    let first = p[i];
    if first == 0xfd {
        lemma_extends_u16(p, s, i + 1);
    } else if first == 0xfe {
        lemma_extends_u32(p, s, i + 1);
    } else if first == 0xff {
        lemma_extends_u64(p, s, i + 1);
    }
}

proof fn lemma_extends_varuint_bytes(p: Seq<u8>, s: Seq<u8>, i: int)
    requires
        is_prefix_of(p, s),
        spec_read_varuint_bytes(p, i) is Some,
    ensures
        spec_read_varuint_bytes(s, i) == spec_read_varuint_bytes(p, i),
{
    lemma_extends_varuint(p, s, i);
    match spec_read_varuint(p, i) {
        Some((n, j)) => {
            lemma_extends_bytes(p, s, j, n as int);
        },
        None => {},
    }
}

proof fn lemma_extends_blobs_n(p: Seq<u8>, s: Seq<u8>, i: int, n: nat)
    requires
        is_prefix_of(p, s),
        spec_read_blobs_n(p, i, n) is Some,
    ensures
        spec_read_blobs_n(s, i, n) == spec_read_blobs_n(p, i, n),
    decreases n,
{
    if n > 0 {
        lemma_extends_varuint_bytes(p, s, i);
        match spec_read_varuint_bytes(p, i) {
            Some((x, j)) => {
                lemma_extends_blobs_n(p, s, j, (n - 1) as nat);
            },
            None => {},
        }
    }
}

proof fn lemma_extends_blob_list(p: Seq<u8>, s: Seq<u8>, i: int)
    requires
        is_prefix_of(p, s),
        spec_read_blob_list(p, i) is Some,
    ensures
        spec_read_blob_list(s, i) == spec_read_blob_list(p, i),
{
    lemma_extends_varuint(p, s, i);
    match spec_read_varuint(p, i) {
        Some((n, j)) => {
            lemma_extends_blobs_n(p, s, j, n as nat);
        },
        None => {},
    }
}

proof fn lemma_extends_input(p: Seq<u8>, s: Seq<u8>, i: int)
    requires
        is_prefix_of(p, s),
        spec_read_input(p, i) is Some,
    ensures
        spec_read_input(s, i) == spec_read_input(p, i),
{
    lemma_extends_bytes(p, s, i, 32);
    match spec_read_bytes(p, i, 32) {
        Some((_h, i1)) => {
            lemma_extends_u32(p, s, i1);
            match spec_read_u32_le(p, i1) {
                Some((_x, i2)) => {
                    lemma_extends_varuint_bytes(p, s, i2);
                    match spec_read_varuint_bytes(p, i2) {
                        Some((_sc, i3)) => {
                            lemma_extends_u32(p, s, i3);
                        },
                        None => {},
                    }
                },
                None => {},
            }
        },
        None => {},
    }
}

proof fn lemma_extends_output(p: Seq<u8>, s: Seq<u8>, i: int)
    requires
        is_prefix_of(p, s),
        spec_read_output(p, i) is Some,
    ensures
        spec_read_output(s, i) == spec_read_output(p, i),
{
    lemma_extends_u64(p, s, i);
    match spec_read_u64_le(p, i) {
        Some((_v, i1)) => {
            lemma_extends_varuint_bytes(p, s, i1);
        },
        None => {},
    }
}

proof fn lemma_extends_inputs_n(p: Seq<u8>, s: Seq<u8>, i: int, n: nat)
    requires
        is_prefix_of(p, s),
        spec_read_inputs_n(p, i, n) is Some,
    ensures
        spec_read_inputs_n(s, i, n) == spec_read_inputs_n(p, i, n),
    decreases n,
{
    if n > 0 {
        lemma_extends_input(p, s, i);
        match spec_read_input(p, i) {
            Some((_x, j)) => {
                lemma_extends_inputs_n(p, s, j, (n - 1) as nat);
            },
            None => {},
        }
    }
}

proof fn lemma_extends_outputs_n(p: Seq<u8>, s: Seq<u8>, i: int, n: nat)
    requires
        is_prefix_of(p, s),
        spec_read_outputs_n(p, i, n) is Some,
    ensures
        spec_read_outputs_n(s, i, n) == spec_read_outputs_n(p, i, n),
    decreases n,
{
    if n > 0 {
        lemma_extends_output(p, s, i);
        match spec_read_output(p, i) {
            Some((_x, j)) => {
                lemma_extends_outputs_n(p, s, j, (n - 1) as nat);
            },
            None => {},
        }
    }
}

proof fn lemma_extends_input_list(p: Seq<u8>, s: Seq<u8>, i: int)
    requires
        is_prefix_of(p, s),
        spec_read_input_list(p, i) is Some,
    ensures
        spec_read_input_list(s, i) == spec_read_input_list(p, i),
{
    lemma_extends_varuint(p, s, i);
    match spec_read_varuint(p, i) {
        Some((n, j)) => {
            lemma_extends_inputs_n(p, s, j, n as nat);
        },
        None => {},
    }
}

proof fn lemma_extends_output_list(p: Seq<u8>, s: Seq<u8>, i: int)
    requires
        is_prefix_of(p, s),
        spec_read_output_list(p, i) is Some,
    ensures
        spec_read_output_list(s, i) == spec_read_output_list(p, i),
{
    lemma_extends_varuint(p, s, i);
    match spec_read_varuint(p, i) {
        Some((n, j)) => {
            lemma_extends_outputs_n(p, s, j, n as nat);
        },
        None => {},
    }
}

proof fn lemma_extends_stacks_n(p: Seq<u8>, s: Seq<u8>, i: int, n: nat)
    requires
        is_prefix_of(p, s),
        spec_read_stacks_n(p, i, n) is Some,
    ensures
        spec_read_stacks_n(s, i, n) == spec_read_stacks_n(p, i, n),
    decreases n,
{
    if n > 0 {
        lemma_extends_blob_list(p, s, i);
        match spec_read_blob_list(p, i) {
            Some((_x, j)) => {
                lemma_extends_stacks_n(p, s, j, (n - 1) as nat);
            },
            None => {},
        }
    }
}

proof fn lemma_extends_tx_tail(
    p: Seq<u8>,
    s: Seq<u8>,
    i: int,
    version: u32,
    flags: u8,
    inputs: Seq<InputView>,
    outputs: Seq<OutputView>,
)
    requires
        is_prefix_of(p, s),
        spec_read_tx_tail(p, i, version, flags, inputs, outputs) is Some,
    ensures
        spec_read_tx_tail(s, i, version, flags, inputs, outputs) == spec_read_tx_tail(
            p,
            i,
            version,
            flags,
            inputs,
            outputs,
        ),
{
    if flags & 1 == 1 {
        lemma_extends_stacks_n(p, s, i, inputs.len());
        match spec_read_stacks_n(p, i, inputs.len()) {
            Some((_st, j)) => {
                lemma_extends_u32(p, s, j);
            },
            None => {},
        }
    } else {
        lemma_extends_u32(p, s, i);
    }
}

proof fn lemma_extends_tx(p: Seq<u8>, s: Seq<u8>, i: int)
    requires
        is_prefix_of(p, s),
        spec_read_tx(p, i) is Some,
    ensures
        spec_read_tx(s, i) == spec_read_tx(p, i),
{
    lemma_extends_u32(p, s, i);
    match spec_read_u32_le(p, i) {
        Some((version, i1)) => {
            lemma_extends_input_list(p, s, i1);
            match spec_read_input_list(p, i1) {
                Some((first_inputs, i2)) => {
                    if first_inputs.len() == 0 {
                        lemma_extends_u8(p, s, i2);
                        match spec_read_u8(p, i2) {
                            Some((flags, i3)) => {
                                lemma_extends_input_list(p, s, i3);
                                match spec_read_input_list(p, i3) {
                                    Some((inputs, i4)) => {
                                        lemma_extends_output_list(p, s, i4);
                                        match spec_read_output_list(p, i4) {
                                            Some((outputs, i5)) => {
                                                lemma_extends_tx_tail(
                                                    p,
                                                    s,
                                                    i5,
                                                    version,
                                                    flags,
                                                    inputs,
                                                    outputs,
                                                );
                                            },
                                            None => {},
                                        }
                                    },
                                    None => {},
                                }
                            },
                            None => {},
                        }
                    } else {
                        lemma_extends_output_list(p, s, i2);
                        match spec_read_output_list(p, i2) {
                            Some((outputs, i3)) => {
                                lemma_extends_tx_tail(
                                    p,
                                    s,
                                    i3,
                                    version,
                                    0,
                                    first_inputs,
                                    outputs,
                                );
                            },
                            None => {},
                        }
                    }
                },
                None => {},
            }
        },
        None => {},
    }
}

proof fn lemma_extends_txs_n(p: Seq<u8>, s: Seq<u8>, i: int, n: nat)
    requires
        is_prefix_of(p, s),
        spec_read_txs_n(p, i, n) is Some,
    ensures
        spec_read_txs_n(s, i, n) == spec_read_txs_n(p, i, n),
    decreases n,
{
    if n > 0 {
        lemma_extends_tx(p, s, i);
        match spec_read_tx(p, i) {
            Some((_x, j)) => {
                lemma_extends_txs_n(p, s, j, (n - 1) as nat);
            },
            None => {},
        }
    }
}

proof fn lemma_extends_header(p: Seq<u8>, s: Seq<u8>, i: int)
    requires
        is_prefix_of(p, s),
        spec_read_header(p, i) is Some,
    ensures
        spec_read_header(s, i) == spec_read_header(p, i),
{
    lemma_extends_u32(p, s, i);
    lemma_extends_bytes(p, s, i + 4, 32);
    lemma_extends_bytes(p, s, i + 36, 32);
    lemma_extends_u32(p, s, i + 68);
    lemma_extends_u32(p, s, i + 72);
    lemma_extends_u32(p, s, i + 76);
}

/// Whatever bytes follow a complete encoding, the decode result does not
/// change: the reader only ever looks at the bytes it consumes.
pub proof fn lemma_extends_block(p: Seq<u8>, s: Seq<u8>, i: int)
    requires
        is_prefix_of(p, s),
        spec_read_block(p, i) is Some,
    ensures
        spec_read_block(s, i) == spec_read_block(p, i),
{
    lemma_extends_header(p, s, i);
    match spec_read_header(p, i) {
        Some((_h, i1)) => {
            lemma_extends_varuint(p, s, i1);
            match spec_read_varuint(p, i1) {
                Some((n, i2)) => {
                    lemma_extends_txs_n(p, s, i2, n as nat);
                },
                None => {},
            }
        },
        None => {},
    }
}

proof fn lemma_bounds_varuint(s: Seq<u8>, i: int)
    ensures
        spec_read_varuint(s, i) matches Some((_v, j)) ==> i < j <= s.len(),
{
}

proof fn lemma_bounds_varuint_bytes(s: Seq<u8>, i: int)
    ensures
        spec_read_varuint_bytes(s, i) matches Some((_v, j)) ==> i < j <= s.len(),
{
    lemma_bounds_varuint(s, i);
}

proof fn lemma_bounds_blobs_n(s: Seq<u8>, i: int, n: nat)
    ensures
        0 <= i <= s.len() ==> (spec_read_blobs_n(s, i, n) matches Some((_v, j)) ==> i <= j
            <= s.len()),
    decreases n,
{
    if n > 0 {
        lemma_bounds_varuint_bytes(s, i);
        match spec_read_varuint_bytes(s, i) {
            Some((_x, j)) => {
                lemma_bounds_blobs_n(s, j, (n - 1) as nat);
            },
            None => {},
        }
    }
}

proof fn lemma_bounds_blob_list(s: Seq<u8>, i: int)
    ensures
        spec_read_blob_list(s, i) matches Some((_v, j)) ==> i <= j <= s.len(),
{
    lemma_bounds_varuint(s, i);
    match spec_read_varuint(s, i) {
        Some((n, j)) => {
            lemma_bounds_blobs_n(s, j, n as nat);
        },
        None => {},
    }
}

proof fn lemma_bounds_input(s: Seq<u8>, i: int)
    ensures
        spec_read_input(s, i) matches Some((_v, j)) ==> i <= j <= s.len(),
{
    match spec_read_bytes(s, i, 32) {
        Some((_h, i1)) => {
            lemma_bounds_varuint_bytes(s, i1 + 4);
        },
        None => {},
    }
}

proof fn lemma_bounds_output(s: Seq<u8>, i: int)
    ensures
        spec_read_output(s, i) matches Some((_v, j)) ==> i <= j <= s.len(),
{
    lemma_bounds_varuint_bytes(s, i + 8);
}

proof fn lemma_bounds_inputs_n(s: Seq<u8>, i: int, n: nat)
    ensures
        0 <= i <= s.len() ==> (spec_read_inputs_n(s, i, n) matches Some((_v, j)) ==> i <= j
            <= s.len()),
    decreases n,
{
    if n > 0 {
        lemma_bounds_input(s, i);
        match spec_read_input(s, i) {
            Some((_x, j)) => {
                lemma_bounds_inputs_n(s, j, (n - 1) as nat);
            },
            None => {},
        }
    }
}

proof fn lemma_bounds_outputs_n(s: Seq<u8>, i: int, n: nat)
    ensures
        0 <= i <= s.len() ==> (spec_read_outputs_n(s, i, n) matches Some((_v, j)) ==> i <= j
            <= s.len()),
    decreases n,
{
    if n > 0 {
        lemma_bounds_output(s, i);
        match spec_read_output(s, i) {
            Some((_x, j)) => {
                lemma_bounds_outputs_n(s, j, (n - 1) as nat);
            },
            None => {},
        }
    }
}

proof fn lemma_bounds_input_list(s: Seq<u8>, i: int)
    ensures
        spec_read_input_list(s, i) matches Some((_v, j)) ==> i <= j <= s.len(),
{
    lemma_bounds_varuint(s, i);
    match spec_read_varuint(s, i) {
        Some((n, j)) => {
            lemma_bounds_inputs_n(s, j, n as nat);
        },
        None => {},
    }
}

proof fn lemma_bounds_output_list(s: Seq<u8>, i: int)
    ensures
        spec_read_output_list(s, i) matches Some((_v, j)) ==> i <= j <= s.len(),
{
    lemma_bounds_varuint(s, i);
    match spec_read_varuint(s, i) {
        Some((n, j)) => {
            lemma_bounds_outputs_n(s, j, n as nat);
        },
        None => {},
    }
}

proof fn lemma_bounds_stacks_n(s: Seq<u8>, i: int, n: nat)
    ensures
        0 <= i <= s.len() ==> (spec_read_stacks_n(s, i, n) matches Some((_v, j)) ==> i <= j
            <= s.len()),
    decreases n,
{
    if n > 0 {
        lemma_bounds_blob_list(s, i);
        match spec_read_blob_list(s, i) {
            Some((_x, j)) => {
                lemma_bounds_stacks_n(s, j, (n - 1) as nat);
            },
            None => {},
        }
    }
}

proof fn lemma_bounds_tx(s: Seq<u8>, i: int)
    ensures
        spec_read_tx(s, i) matches Some((_v, j)) ==> i <= j <= s.len(),
{
    match spec_read_u32_le(s, i) {
        Some((_version, i1)) => {
            lemma_bounds_input_list(s, i1);
            match spec_read_input_list(s, i1) {
                Some((first_inputs, i2)) => {
                    if first_inputs.len() == 0 {
                        match spec_read_u8(s, i2) {
                            Some((_flags, i3)) => {
                                lemma_bounds_input_list(s, i3);
                                match spec_read_input_list(s, i3) {
                                    Some((inputs, i4)) => {
                                        lemma_bounds_output_list(s, i4);
                                        match spec_read_output_list(s, i4) {
                                            Some((_outputs, i5)) => {
                                                lemma_bounds_stacks_n(s, i5, inputs.len());
                                                match spec_read_stacks_n(s, i5, inputs.len()) {
                                                    Some((_st, i6)) => {},
                                                    None => {},
                                                }
                                            },
                                            None => {},
                                        }
                                    },
                                    None => {},
                                }
                            },
                            None => {},
                        }
                    } else {
                        lemma_bounds_output_list(s, i2);
                        match spec_read_output_list(s, i2) {
                            Some((_outputs, i3)) => {
                                lemma_bounds_stacks_n(s, i3, first_inputs.len());
                            },
                            None => {},
                        }
                    }
                },
                None => {},
            }
        },
        None => {},
    }
}

proof fn lemma_bounds_txs_n(s: Seq<u8>, i: int, n: nat)
    ensures
        0 <= i <= s.len() ==> (spec_read_txs_n(s, i, n) matches Some((_v, j)) ==> i <= j
            <= s.len()),
    decreases n,
{
    if n > 0 {
        lemma_bounds_tx(s, i);
        match spec_read_tx(s, i) {
            Some((_x, j)) => {
                lemma_bounds_txs_n(s, j, (n - 1) as nat);
            },
            None => {},
        }
    }
}

proof fn lemma_bounds_block(s: Seq<u8>, i: int)
    ensures
        spec_read_block(s, i) matches Some((_v, j)) ==> i <= j <= s.len(),
{
    match spec_read_header(s, i) {
        Some((_h, i1)) => {
            lemma_bounds_varuint(s, i1);
            match spec_read_varuint(s, i1) {
                Some((n, i2)) => {
                    lemma_bounds_txs_n(s, i2, n as nat);
                },
                None => {},
            }
        },
        None => {},
    }
}

/// Underrun: a transaction encoding cut anywhere before its end no longer
/// decodes — the decoder fails rather than return a short result.
pub proof fn lemma_truncated_tx_fails(s: Seq<u8>, i: int, t: TxView, j: int, k: int)
    requires
        0 <= i,
        spec_read_tx(s, i) == Some((t, j)),
        i <= k < j,
    ensures
        spec_read_tx(s.subrange(0, k), i) is None,
{
    let p = s.subrange(0, k);
    match spec_read_tx(p, i) {
        None => {},
        Some((t2, j2)) => {
            lemma_bounds_tx(p, i);
            assert(p.len() == k);
            assert(is_prefix_of(p, s));
            lemma_extends_tx(p, s, i);
            assert(false);
        },
    }
}

/// Underrun: a block encoding cut anywhere before its end no longer decodes.
#[verifier::spinoff_prover]
#[verifier::rlimit(100)]
pub proof fn lemma_truncated_block_fails(s: Seq<u8>, i: int, b: BlockView, j: int, k: int)
    requires
        0 <= i,
        spec_read_block(s, i) == Some((b, j)),
        i <= k < j,
    ensures
        spec_read_block(s.subrange(0, k), i) is None,
{
    let p = s.subrange(0, k);
    lemma_bounds_block(s, i);
    match spec_read_block(p, i) {
        None => {},
        Some((b2, j2)) => {
            lemma_bounds_block(p, i);
            assert(p.len() == k);
            lemma_extends_block(p, s, i);
            assert(false);
        },
    }
}

/// Every input produced by the plain input reader has its witness unset.
proof fn lemma_inputs_read_without_witness(s: Seq<u8>, i: int, n: nat)
    ensures
        spec_read_inputs_n(s, i, n) matches Some((ins, _j)) ==> forall|k: int|
            0 <= k < ins.len() ==> ins[k].witness is None,
    decreases n,
{
    if n > 0 {
        match spec_read_input(s, i) {
            Some((x, j)) => {
                lemma_inputs_read_without_witness(s, j, (n - 1) as nat);
            },
            None => {},
        }
    }
}

/// Witness detection, legacy side: when the first input-list read yields one
/// or more inputs, no flags byte is consumed — the outputs follow at once —
/// and every decoded input's witness is unset.
#[verifier::rlimit(100)]
pub proof fn lemma_no_marker_means_no_witness(
    s: Seq<u8>,
    i: int,
    version: u32,
    i1: int,
    ins: Seq<InputView>,
    i2: int,
    t: TxView,
    j: int,
)
    requires
        spec_read_u32_le(s, i) == Some((version, i1)),
        spec_read_input_list(s, i1) == Some((ins, i2)),
        ins.len() > 0,
        spec_read_tx(s, i) == Some((t, j)),
    ensures
        t.inputs == ins,
        spec_read_output_list(s, i2) is Some,
        forall|k: int| 0 <= k < t.inputs.len() ==> t.inputs[k].witness is None,
{
    lemma_bounds_varuint(s, i1);
    match spec_read_varuint(s, i1) {
        Some((n, jn)) => {
            lemma_inputs_read_without_witness(s, jn, n as nat);
        },
        None => {},
    }
    assert(0u8 & 1u8 == 0u8) by (bit_vector);
    match spec_read_output_list(s, i2) {
        Some((outs, i3)) => {
            assert(spec_read_tx(s, i) == spec_read_tx_tail(s, i3, version, 0, ins, outs));
            match spec_read_u32_le(s, i3) {
                Some((lt, i4)) => {
                    assert(t.inputs == ins);
                    assert(t.outputs == outs);
                },
                None => {
                    assert(false);
                },
            }
        },
        None => {
            assert(false);
        },
    }
}

/// Witness detection, marker side: when the first input-list read yields
/// zero inputs, the next byte is consumed as the flags and the real input
/// list is read after it.
pub proof fn lemma_marker_reads_flags(
    s: Seq<u8>,
    i: int,
    version: u32,
    i1: int,
    marker: Seq<InputView>,
    i2: int,
    t: TxView,
    j: int,
)
    requires
        spec_read_u32_le(s, i) == Some((version, i1)),
        spec_read_input_list(s, i1) == Some((marker, i2)),
        marker.len() == 0,
        spec_read_tx(s, i) == Some((t, j)),
    ensures
        spec_read_u8(s, i2) == Some((s[i2], i2 + 1)),
        spec_read_input_list(s, i2 + 1) is Some,
        spec_read_input_list(s, i2 + 1) matches Some((real_ins, _i3)) ==> t.inputs.len()
            == real_ins.len(),
{
    match spec_read_u8(s, i2) {
        Some((flags, i3)) => {
            match spec_read_input_list(s, i3) {
                Some((real_ins, i4)) => {},
                None => {},
            }
        },
        None => {},
    }
}

/// When the witness flag bit is set, exactly one witness stack is attached
/// per input: every decoded input carries a witness.
pub proof fn lemma_flag_bit_attaches_witness_everywhere(
    s: Seq<u8>,
    i: int,
    version: u32,
    i1: int,
    marker: Seq<InputView>,
    i2: int,
    t: TxView,
    j: int,
)
    requires
        spec_read_u32_le(s, i) == Some((version, i1)),
        spec_read_input_list(s, i1) == Some((marker, i2)),
        marker.len() == 0,
        spec_read_u8(s, i2) matches Some((flags, _i3)) && flags & 1 == 1,
        spec_read_tx(s, i) == Some((t, j)),
    ensures
        forall|k: int| 0 <= k < t.inputs.len() ==> t.inputs[k].witness is Some,
{
}

/// Witness uniformity: in any decoded transaction, either every input
/// carries a witness or none does.
pub proof fn lemma_witness_uniform(s: Seq<u8>, i: int, t: TxView, j: int)
    requires
        spec_read_tx(s, i) == Some((t, j)),
    ensures
        (forall|k: int| 0 <= k < t.inputs.len() ==> t.inputs[k].witness is Some) || (forall|
            k: int,
        | 0 <= k < t.inputs.len() ==> t.inputs[k].witness is None),
{
    match spec_read_u32_le(s, i) {
        Some((version, i1)) => {
            match spec_read_input_list(s, i1) {
                Some((first_inputs, i2)) => {
                    if first_inputs.len() == 0 {
                        match spec_read_u8(s, i2) {
                            Some((flags, i3)) => {
                                match spec_read_input_list(s, i3) {
                                    Some((inputs, i4)) => {
                                        if flags & 1 == 1 {
                                        } else {
                                            lemma_bounds_varuint(s, i3);
                                            match spec_read_varuint(s, i3) {
                                                Some((n, jn)) => {
                                                    lemma_inputs_read_without_witness(
                                                        s,
                                                        jn,
                                                        n as nat,
                                                    );
                                                },
                                                None => {},
                                            }
                                        }
                                    },
                                    None => {},
                                }
                            },
                            None => {},
                        }
                    } else {
                        lemma_bounds_varuint(s, i1);
                        match spec_read_varuint(s, i1) {
                            Some((n, jn)) => {
                                lemma_inputs_read_without_witness(s, jn, n as nat);
                            },
                            None => {},
                        }
                    }
                },
                None => {},
            }
        },
        None => {},
    }
}

} // verus!
