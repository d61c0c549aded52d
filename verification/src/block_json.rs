//! Data model of the verbose JSON block representation, and the structural
//! validation of transaction inputs: an input object is a tagged union told
//! apart by which fields are present, with duplicate, unknown, mixed and
//! missing fields each a distinct recoverable error.

use vstd::prelude::*;

verus! {

use vstd::string::StringSliceAdditionalSpecFns;
use vstd::utf8::encode_utf8;
use crate::hash256::H256;
use crate::hexcode::{HexError, decode_hex_digits, is_hex_digit, spec_hex_bytes};

/// A transaction as the verbose JSON representation carries it.
#[derive(Debug)]
pub struct Transaction {
    pub hex: Vec<u8>,
    pub txid: H256,
    pub hash: H256,
    pub size: u32,
    pub vsize: u32,
    pub weight: u32,
    pub version: u32,
    pub locktime: u32,
    pub vin: Vec<TransactionInput>,
    pub vout: Vec<TransactionOutput>,
}

/// A transaction input: a tagged union selected by structural field
/// presence. A `coinbase` field (plus only `sequence`) selects `Coinbase`;
/// `txid`/`vout`/`scriptSig`/`sequence` select `Usual`.
#[derive(Debug)]
pub enum TransactionInput {
    Coinbase { hex: Vec<u8>, sequence: u32 },
    Usual {
        txid: Option<H256>,
        vout: u32,
        script: TransactionInputScript,
        sequence: u32,
        txinwitness: Option<Vec<Vec<u8>>>,
    },
}

/// The unlocking script of a usual input.
#[derive(Debug)]
pub struct TransactionInputScript {
    pub assembly: String,
    pub hex: Vec<u8>,
}

/// A transaction output. The amount is kept as the decimal text the JSON
/// carried: parsing it into a binary floating-point number would lose
/// precision.
#[derive(Debug)]
pub struct TransactionOutput {
    pub value: String,
    pub n: u32,
    pub script: TransactionOutputScript,
}

/// The locking script of an output.
#[derive(Debug)]
pub struct TransactionOutputScript {
    pub assembly: String,
    pub hex: Vec<u8>,
    pub req_sigs: Option<u32>,
    pub script_type: String,
    pub addresses: Option<Vec<String>>,
}

/// The fields an input object may carry.
#[derive(PartialEq, Eq, Structural, Clone, Copy, Debug)]
pub enum InputField {
    Coinbase,
    Txid,
    Vout,
    ScriptSig,
    Sequence,
    Txinwitness,
}

/// A structural decode error of the JSON representation, naming the
/// offending field.
#[derive(Debug)]
pub enum JsonError {
    /// A required field of the selected variant is absent.
    MissingField(InputField),
    /// A field appeared twice.
    DuplicateField(InputField),
    /// A field does not belong here: either its name is not in the schema,
    /// or it mixes the two variants.
    UnknownField(String),
    /// A hex-valued field has the wrong length.
    InvalidHexLength(InputField),
    /// A hex-valued field holds a non-hex character.
    InvalidHexContent(InputField),
    /// A field's value has the wrong JSON type.
    TypeMismatch(String),
}

/// How a single hex-encoded value fails, if it does.
pub open spec fn hex_str_error(b: Seq<u8>) -> Option<HexError> {
    if b.len() % 2 != 0 {
        Some(HexError::InvalidLength)
    } else if exists|i: int| 0 <= i < b.len() && !is_hex_digit(b[i]) {
        Some(HexError::InvalidContent)
    } else {
        None
    }
}

/// The UTF-8 bytes of each witness item.
pub open spec fn witness_bytes(items: Seq<Seq<char>>) -> Seq<Seq<u8>> {
    Seq::new(items.len(), |k: int| encode_utf8(items[k]))
}

/// The first failure among a list of hex-encoded values, in order.
pub open spec fn first_hex_error(bs: Seq<Seq<u8>>) -> Option<HexError>
    decreases bs.len(),
{
    if bs.len() == 0 {
        None
    } else {
        match hex_str_error(bs[0]) {
            Some(e) => Some(e),
            None => first_hex_error(bs.drop_first()),
        }
    }
}

/// Each hex value decoded, when none fails.
pub open spec fn decode_all(bs: Seq<Seq<u8>>) -> Seq<Seq<u8>> {
    Seq::new(bs.len(), |k: int| spec_hex_bytes(bs[k]))
}

/// All fields except the named one agree between two accumulator states.
pub open spec fn unchanged_but(
    field: InputField,
    pre: InputAccumulator,
    post: InputAccumulator,
) -> bool {
    &&& (field != InputField::Coinbase ==> post.coinbase == pre.coinbase)
    &&& (field != InputField::Txid ==> post.txid == pre.txid)
    &&& (field != InputField::Vout ==> post.vout == pre.vout)
    &&& (field != InputField::ScriptSig ==> post.script == pre.script)
    &&& (field != InputField::Sequence ==> post.sequence == pre.sequence)
    &&& (field != InputField::Txinwitness ==> post.txinwitness == pre.txinwitness)
}

/// Collects the fields of one input object as a JSON map is walked, checking
/// each against the schema; `finish` then selects the variant from which
/// fields are present.
#[derive(Debug)]
pub struct InputAccumulator {
    pub coinbase: Option<Vec<u8>>,
    pub txid: Option<H256>,
    pub vout: Option<u32>,
    pub script: Option<TransactionInputScript>,
    pub sequence: Option<u32>,
    pub txinwitness: Option<Vec<Vec<u8>>>,
}

impl InputAccumulator {
    /// An accumulator with no field seen yet.
    pub fn new() -> (acc: InputAccumulator)
        ensures
            acc.coinbase is None,
            acc.txid is None,
            acc.vout is None,
            acc.script is None,
            acc.sequence is None,
            acc.txinwitness is None,
    {
        InputAccumulator {
            coinbase: None,
            txid: None,
            vout: None,
            script: None,
            sequence: None,
            txinwitness: None,
        }
    }

    /// Take the `coinbase` field: hex text, decoded here.
    pub fn set_coinbase(&mut self, value: &str) -> (res: Result<(), JsonError>)
        ensures
            old(self).coinbase is Some ==> res == Err::<(), JsonError>(
                JsonError::DuplicateField(InputField::Coinbase),
            ) && *final(self) == *old(self),
            old(self).coinbase is None ==> {
                let b = value.spec_bytes();
                if b.len() % 2 != 0 {
                    res == Err::<(), JsonError>(JsonError::InvalidHexLength(InputField::Coinbase))
                        && *final(self) == *old(self)
                } else if exists|i: int| 0 <= i < b.len() && !is_hex_digit(b[i]) {
                    res == Err::<(), JsonError>(JsonError::InvalidHexContent(InputField::Coinbase))
                        && *final(self) == *old(self)
                } else {
                    res == Ok::<(), JsonError>(()) && (final(self).coinbase matches Some(v) && v@
                        == spec_hex_bytes(b)) && unchanged_but(
                        InputField::Coinbase,
                        *old(self),
                        *final(self),
                    )
                }
            },
    {
        if self.coinbase.is_some() {
            return Err(JsonError::DuplicateField(InputField::Coinbase));
        }
        match decode_hex_digits(value.as_bytes()) {
            Err(HexError::InvalidLength) => Err(
                JsonError::InvalidHexLength(InputField::Coinbase),
            ),
            Err(HexError::InvalidContent) => Err(
                JsonError::InvalidHexContent(InputField::Coinbase),
            ),
            Ok(v) => {
                self.coinbase = Some(v);
                Ok(())
            },
        }
    }

    /// Take the `txid` field: exactly 64 hex digits.
    pub fn set_txid(&mut self, value: &str) -> (res: Result<(), JsonError>)
        ensures
            old(self).txid is Some ==> res == Err::<(), JsonError>(
                JsonError::DuplicateField(InputField::Txid),
            ) && *final(self) == *old(self),
            old(self).txid is None ==> {
                let b = value.spec_bytes();
                if b.len() != 64 {
                    res == Err::<(), JsonError>(JsonError::InvalidHexLength(InputField::Txid))
                        && *final(self) == *old(self)
                } else if exists|i: int| 0 <= i < b.len() && !is_hex_digit(b[i]) {
                    res == Err::<(), JsonError>(JsonError::InvalidHexContent(InputField::Txid))
                        && *final(self) == *old(self)
                } else {
                    res == Ok::<(), JsonError>(()) && (final(self).txid matches Some(h) && h@
                        == spec_hex_bytes(b)) && unchanged_but(
                        InputField::Txid,
                        *old(self),
                        *final(self),
                    )
                }
            },
    {
        if self.txid.is_some() {
            return Err(JsonError::DuplicateField(InputField::Txid));
        }
        match H256::from_hex(value.as_bytes()) {
            Err(HexError::InvalidLength) => Err(JsonError::InvalidHexLength(InputField::Txid)),
            Err(HexError::InvalidContent) => Err(JsonError::InvalidHexContent(InputField::Txid)),
            Ok(h) => {
                self.txid = Some(h);
                Ok(())
            },
        }
    }

    /// Take the `vout` field.
    pub fn set_vout(&mut self, value: u32) -> (res: Result<(), JsonError>)
        ensures
            old(self).vout is Some ==> res == Err::<(), JsonError>(
                JsonError::DuplicateField(InputField::Vout),
            ) && *final(self) == *old(self),
            old(self).vout is None ==> res == Ok::<(), JsonError>(()) && final(self).vout == Some(
                value,
            ) && unchanged_but(InputField::Vout, *old(self), *final(self)),
    {
        if self.vout.is_some() {
            return Err(JsonError::DuplicateField(InputField::Vout));
        }
        self.vout = Some(value);
        Ok(())
    }

    /// Take the `scriptSig` field.
    pub fn set_script_sig(&mut self, value: TransactionInputScript) -> (res: Result<(), JsonError>)
        ensures
            old(self).script is Some ==> res == Err::<(), JsonError>(
                JsonError::DuplicateField(InputField::ScriptSig),
            ) && *final(self) == *old(self),
            old(self).script is None ==> res == Ok::<(), JsonError>(()) && final(self).script
                == Some(value) && unchanged_but(InputField::ScriptSig, *old(self), *final(self)),
    {
        if self.script.is_some() {
            return Err(JsonError::DuplicateField(InputField::ScriptSig));
        }
        self.script = Some(value);
        Ok(())
    }

    /// Take the `sequence` field.
    pub fn set_sequence(&mut self, value: u32) -> (res: Result<(), JsonError>)
        ensures
            old(self).sequence is Some ==> res == Err::<(), JsonError>(
                JsonError::DuplicateField(InputField::Sequence),
            ) && *final(self) == *old(self),
            old(self).sequence is None ==> res == Ok::<(), JsonError>(()) && final(self).sequence
                == Some(value) && unchanged_but(InputField::Sequence, *old(self), *final(self)),
    {
        if self.sequence.is_some() {
            return Err(JsonError::DuplicateField(InputField::Sequence));
        }
        self.sequence = Some(value);
        Ok(())
    }

    /// Take the `txinwitness` field: a list of hex texts, each decoded here;
    /// the first ill-formed item decides the error.
    #[verifier::loop_isolation(false)]
    pub fn set_txinwitness(&mut self, items: &Vec<String>) -> (res: Result<(), JsonError>)
        ensures
            old(self).txinwitness is Some ==> res == Err::<(), JsonError>(
                JsonError::DuplicateField(InputField::Txinwitness),
            ) && *final(self) == *old(self),
            old(self).txinwitness is None ==> {
                let wb = witness_bytes(items.deep_view());
                match first_hex_error(wb) {
                    Some(HexError::InvalidLength) => res == Err::<(), JsonError>(
                        JsonError::InvalidHexLength(InputField::Txinwitness),
                    ) && *final(self) == *old(self),
                    Some(HexError::InvalidContent) => res == Err::<(), JsonError>(
                        JsonError::InvalidHexContent(InputField::Txinwitness),
                    ) && *final(self) == *old(self),
                    None => res == Ok::<(), JsonError>(()) && (final(self).txinwitness matches Some(
                        w,
                    ) && w.deep_view() == decode_all(wb)) && unchanged_but(
                        InputField::Txinwitness,
                        *old(self),
                        *final(self),
                    ),
                }
            },
    {
        if self.txinwitness.is_some() {
            return Err(JsonError::DuplicateField(InputField::Txinwitness));
        }
        let ghost wb = witness_bytes(items.deep_view());
        let mut acc: Vec<Vec<u8>> = Vec::new();
        let mut k: usize = 0;
        proof {
            assert(wb.skip(0) =~= wb);
        }
        while k < items.len()
            invariant
                k <= items@.len(),
                wb == witness_bytes(items.deep_view()),
                wb.len() == items@.len(),
                first_hex_error(wb) == first_hex_error(wb.skip(k as int)),
                acc.deep_view().len() == k,
                forall|i: int| 0 <= i < k ==> #[trigger] acc.deep_view()[i] == spec_hex_bytes(
                    wb[i],
                ),
            decreases items@.len() - k,
        {
            let item = &items[k];
            let bytes = item.as_str().as_bytes();
            proof {
                assert(bytes@ == wb[k as int]);
                assert(wb.skip(k as int)[0] == wb[k as int]);
            }
            match decode_hex_digits(bytes) {
                Err(HexError::InvalidLength) => {
                    return Err(JsonError::InvalidHexLength(InputField::Txinwitness));
                },
                Err(HexError::InvalidContent) => {
                    return Err(JsonError::InvalidHexContent(InputField::Txinwitness));
                },
                Ok(v) => {
                    let ghost acc0 = acc.deep_view();
                    acc.push(v);
                    proof {
                        assert(acc.deep_view() =~~= acc0.push(v@));
                        assert(wb.skip(k as int).drop_first() =~= wb.skip(k + 1));
                    }
                    k = k + 1;
                },
            }
        }
        proof {
            assert(wb.skip(k as int) =~= Seq::<Seq<u8>>::empty());
            assert(acc.deep_view() =~= decode_all(wb));
        }
        self.txinwitness = Some(acc);
        Ok(())
    }

    /// Select the variant from which fields are present: `coinbase` (with
    /// only `sequence`) makes a coinbase input; otherwise
    /// `txid`/`vout`/`scriptSig`/`sequence` make a usual one, `txinwitness`
    /// optional. A field of the other variant, or a missing required field,
    /// is an error.
    pub fn finish(self) -> (res: Result<TransactionInput, JsonError>)
        ensures
            self.coinbase is Some ==> {
                if self.txid is Some {
                    res matches Err(e) && e matches JsonError::UnknownField(f) && f@ == "txid"@
                } else if self.vout is Some {
                    res matches Err(e) && e matches JsonError::UnknownField(f) && f@ == "vout"@
                } else if self.script is Some {
                    res matches Err(e) && e matches JsonError::UnknownField(f) && f@ == "script"@
                } else if self.txinwitness is Some {
                    res matches Err(e) && e matches JsonError::UnknownField(f) && f@
                        == "txinwitness"@
                } else if self.sequence is None {
                    res == Err::<TransactionInput, JsonError>(
                        JsonError::MissingField(InputField::Sequence),
                    )
                } else {
                    res matches Ok(inp) && inp matches TransactionInput::Coinbase {
                        hex,
                        sequence,
                    } && Some(hex) == self.coinbase && Some(sequence) == self.sequence
                }
            },
            self.coinbase is None ==> {
                if self.txid is None {
                    res == Err::<TransactionInput, JsonError>(
                        JsonError::MissingField(InputField::Txid),
                    )
                } else if self.vout is None {
                    res == Err::<TransactionInput, JsonError>(
                        JsonError::MissingField(InputField::Vout),
                    )
                } else if self.script is None {
                    res == Err::<TransactionInput, JsonError>(
                        JsonError::MissingField(InputField::ScriptSig),
                    )
                } else if self.sequence is None {
                    res == Err::<TransactionInput, JsonError>(
                        JsonError::MissingField(InputField::Sequence),
                    )
                } else {
                    res matches Ok(inp) && inp matches TransactionInput::Usual {
                        txid,
                        vout,
                        script,
                        sequence,
                        txinwitness,
                    } && txid == self.txid && Some(vout) == self.vout && Some(script) == self.script
                        && Some(sequence) == self.sequence && txinwitness == self.txinwitness
                }
            },
    {
        let InputAccumulator { coinbase, txid, vout, script, sequence, txinwitness } = self;
        match coinbase {
            Some(cb) => {
                if txid.is_some() {
                    return Err(JsonError::UnknownField("txid".to_owned()));
                }
                if vout.is_some() {
                    return Err(JsonError::UnknownField("vout".to_owned()));
                }
                if script.is_some() {
                    return Err(JsonError::UnknownField("script".to_owned()));
                }
                if txinwitness.is_some() {
                    return Err(JsonError::UnknownField("txinwitness".to_owned()));
                }
                match sequence {
                    None => Err(JsonError::MissingField(InputField::Sequence)),
                    Some(sq) => Ok(TransactionInput::Coinbase { hex: cb, sequence: sq }),
                }
            },
            None => {
                let txid_v = match txid {
                    None => { return Err(JsonError::MissingField(InputField::Txid)) },
                    Some(t) => t,
                };
                let vout_v = match vout {
                    None => { return Err(JsonError::MissingField(InputField::Vout)) },
                    Some(v) => v,
                };
                let script_v = match script {
                    None => { return Err(JsonError::MissingField(InputField::ScriptSig)) },
                    Some(v) => v,
                };
                let seq_v = match sequence {
                    None => { return Err(JsonError::MissingField(InputField::Sequence)) },
                    Some(v) => v,
                };
                Ok(
                    TransactionInput::Usual {
                        txid: Some(txid_v),
                        vout: vout_v,
                        script: script_v,
                        sequence: seq_v,
                        txinwitness,
                    },
                )
            },
        }
    }
}

} // verus!
