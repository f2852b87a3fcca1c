//! The pseudo-random source handed to fuzzers. A `Seeded` source evolves
//! pseudo-randomly and records every draw; a `Replayed` source consumes a
//! prewritten draw list and reports exhaustion. Both travel to the fuzzer
//! as data constructors with a fixed tag scheme, and the fuzzer's reply is
//! decoded back here.

use vstd::prelude::*;

use crate::data::{choice_list, choices_to_list, DataValue, Dat, TAG_OFFSET};
use crate::vm::{FatalError, VmBridge};

verus! {

/// Constructor index of `Seeded` on the wire.
pub const SEEDED: u64 = 0;

/// Constructor index of `Replayed` on the wire.
pub const REPLAYED: u64 = 1;

/// Constructor index of an option's `Some` on the wire.
pub const SOME_TAG: u64 = 0;

/// Constructor index of an option's `None` on the wire.
pub const NONE_TAG: u64 = 1;

/// A pseudo-random number generator, together with its cached data
/// encoding.
///
/// A `Seeded` generator stores the draws the fuzzer has reported so far,
/// newest first; a `Replayed` generator stores them in consumption order.
#[derive(Debug)]
pub enum Prng {
    Seeded { seed: u32, choices: Vec<u32>, uplc: DataValue },
    Replayed { choices: Vec<u32>, uplc: DataValue },
}

/// The mathematical model of a [`Prng`]: its variant, seed and stored
/// choices; the cached encoding is determined by them (see [`Prng::wf`]).
pub enum PrngModel {
    Seeded { seed: u32, choices: Seq<u32> },
    Replayed { choices: Seq<u32> },
}

impl View for Prng {
    type V = PrngModel;

    open spec fn view(&self) -> PrngModel {
        match self {
            Prng::Seeded { seed, choices, .. } => PrngModel::Seeded {
                seed: *seed,
                choices: choices@,
            },
            Prng::Replayed { choices, .. } => PrngModel::Replayed { choices: choices@ },
        }
    }
}

/// The canonical encoding of a generator state: constructor index 0 with
/// the seed and the stored choices for `Seeded`, constructor index 1 with
/// the stored choices for `Replayed`; choices are encoded in stored order.
pub open spec fn prng_dat(p: PrngModel) -> Dat {
    match p {
        PrngModel::Seeded { seed, choices } => Dat::Constr {
            tag: (TAG_OFFSET + SEEDED) as u64,
            fields: seq![Dat::Integer { value: seed as int }, choice_list(choices)],
        },
        PrngModel::Replayed { choices } => Dat::Constr {
            tag: (TAG_OFFSET + REPLAYED) as u64,
            fields: seq![choice_list(choices)],
        },
    }
}

/// Whether a data value is an integer that fits a `u32` choice.
pub open spec fn is_choice_int(d: Dat) -> bool {
    &&& d matches Dat::Integer { .. }
    &&& 0 <= d->Integer_value < 0x1_0000_0000
}

/// Whether every item of a list parses as a `u32` choice.
pub open spec fn all_choice_ints(items: Seq<Dat>) -> bool {
    forall|i: int| 0 <= i < items.len() ==> is_choice_int(#[trigger] items[i])
}

/// The choices held by a list whose items all parse as `u32`.
pub open spec fn choices_of(items: Seq<Dat>) -> Seq<u32> {
    Seq::new(items.len(), |i: int| items[i]->Integer_value as u32)
}

/// Whether a data value has the wire shape of a seeded generator state.
pub open spec fn is_seeded_shape(d: Dat) -> bool {
    &&& d matches Dat::Constr { tag, fields }
    &&& d->Constr_tag == TAG_OFFSET + SEEDED
    &&& d->Constr_fields.len() == 2
    &&& is_choice_int(d->Constr_fields[0])
    &&& d->Constr_fields[1] matches Dat::List { items }
    &&& all_choice_ints(d->Constr_fields[1]->List_items)
}

/// Whether a data value has the wire shape of a replayed generator state.
pub open spec fn is_replayed_shape(d: Dat) -> bool {
    &&& d matches Dat::Constr { tag, fields }
    &&& d->Constr_tag == TAG_OFFSET + REPLAYED
    &&& d->Constr_fields.len() == 1
    &&& d->Constr_fields[0] matches Dat::List { items }
    &&& all_choice_ints(d->Constr_fields[0]->List_items)
}

/// Parse a data value as a generator state, as the wire protocol fixes it.
/// `None` means the value matches neither constructor's shape.
pub open spec fn parse_prng(d: Dat) -> Option<PrngModel> {
    if is_seeded_shape(d) {
        Some(
            PrngModel::Seeded {
                seed: d->Constr_fields[0]->Integer_value as u32,
                choices: choices_of(d->Constr_fields[1]->List_items),
            },
        )
    } else if is_replayed_shape(d) {
        Some(PrngModel::Replayed { choices: choices_of(d->Constr_fields[0]->List_items) })
    } else {
        None
    }
}

/// Whether a data value has the wire shape of a fuzzer's `Some` reply:
/// constructor index 0 holding one field, a two-item list of the new
/// generator state and the generated value.
pub open spec fn is_yield_shape(d: Dat) -> bool {
    &&& d matches Dat::Constr { tag, fields }
    &&& d->Constr_tag == TAG_OFFSET + SOME_TAG
    &&& d->Constr_fields.len() == 1
    &&& d->Constr_fields[0] matches Dat::List { items }
    &&& d->Constr_fields[0]->List_items.len() == 2
    &&& parse_prng(d->Constr_fields[0]->List_items[0]) is Some
}

/// Parse a fuzzer's reply: a well-shaped `Some` carries the new generator
/// state and the value; `None` is constructor index 1 (its fields are not
/// inspected). The outer `None` means the reply matches neither shape and
/// is malformed.
pub open spec fn parse_reply(d: Dat) -> Option<Option<(PrngModel, Dat)>> {
    if is_yield_shape(d) {
        Some(
            Some(
                (
                    parse_prng(d->Constr_fields[0]->List_items[0])->Some_0,
                    d->Constr_fields[0]->List_items[1],
                ),
            ),
        )
    } else if d matches Dat::Constr { tag, .. } && tag == TAG_OFFSET + NONE_TAG {
        Some(None)
    } else {
        None
    }
}

/// Read a list of data items back as `u32` choices, rejecting any item
/// that is not an integer in range.
fn read_choices(items: &Vec<DataValue>) -> (r: Option<Vec<u32>>)
    ensures
        match r {
            Some(cs) => all_choice_ints(items.deep_view()) && cs@ == choices_of(items.deep_view()),
            None => !all_choice_ints(items.deep_view()),
        },
{
    let mut out: Vec<u32> = Vec::new();
    let mut i: usize = 0;
    while i < items.len()
        invariant
            i <= items@.len(),
            out@.len() == i,
            forall|j: int| 0 <= j < i ==> is_choice_int(#[trigger] items.deep_view()[j]),
            forall|j: int|
                0 <= j < i ==> out@[j] == items.deep_view()[j]->Integer_value as u32,
        decreases items@.len() - i,
    {
        match &items[i] {
            DataValue::Integer { value } => {
                if 0 <= *value && *value < 0x1_0000_0000i128 {
                    out.push(*value as u32);
                } else {
                    proof {
                        assert(!is_choice_int(items.deep_view()[i as int]));
                    }
                    return None;
                }
            },
            _ => {
                proof {
                    assert(!is_choice_int(items.deep_view()[i as int]));
                }
                return None;
            },
        }
        i = i + 1;
    }
    proof {
        assert(out@ =~= choices_of(items.deep_view()));
    }
    Some(out)
}

/// Encoding then parsing a generator state gives the state back: the wire
/// encoding loses nothing.
pub proof fn lemma_parse_prng_dat(p: PrngModel)
    ensures
        parse_prng(prng_dat(p)) == Some(p),
{
    match p {
        PrngModel::Seeded { seed, choices } => {
            let d = prng_dat(p);
            assert(is_choice_int(d->Constr_fields[0]));
            assert(all_choice_ints(d->Constr_fields[1]->List_items)) by {
                assert forall|i: int| 0 <= i < choices.len() implies is_choice_int(
                    #[trigger] choice_list(choices)->List_items[i],
                ) by {}
            }
            assert(is_seeded_shape(d));
            assert(!is_replayed_shape(d));
            assert(choices_of(d->Constr_fields[1]->List_items) =~= choices);
        },
        PrngModel::Replayed { choices } => {
            let d = prng_dat(p);
            assert(all_choice_ints(d->Constr_fields[0]->List_items)) by {
                assert forall|i: int| 0 <= i < choices.len() implies is_choice_int(
                    #[trigger] choice_list(choices)->List_items[i],
                ) by {}
            }
            assert(!is_seeded_shape(d));
            assert(is_replayed_shape(d));
            assert(choices_of(d->Constr_fields[0]->List_items) =~= choices);
        },
    }
}

/// Copy a choice vector.
pub(crate) fn copy_choices(v: &Vec<u32>) -> (r: Vec<u32>)
    ensures
        r@ == v@,
{
    let mut out: Vec<u32> = Vec::new();
    let mut i: usize = 0;
    while i < v.len()
        invariant
            i <= v@.len(),
            out@.len() == i,
            forall|j: int| 0 <= j < i ==> out@[j] == v@[j],
        decreases v@.len() - i,
    {
        out.push(v[i]);
        i = i + 1;
    }
    proof {
        assert(out@ =~= v@);
    }
    out
}

/// Build the canonical data encoding of a seeded generator state.
pub fn encode_seeded(seed: u32, choices: &Vec<u32>) -> (r: DataValue)
    ensures
        r@ == prng_dat(PrngModel::Seeded { seed, choices: choices@ }),
{
    let ghost enc = prng_dat(PrngModel::Seeded { seed, choices: choices@ });
    let list = choices_to_list(choices);
    let mut fields: Vec<DataValue> = Vec::new();
    fields.push(DataValue::Integer { value: seed as i128 });
    fields.push(list);
    proof {
        assert(fields@.len() == 2);
        assert(fields@[0]@ == enc->Constr_fields[0]);
        assert(fields@[1]@ == enc->Constr_fields[1]);
    }
    let r = DataValue::Constr { tag: TAG_OFFSET + SEEDED, fields };
    proof {
        assert(r@->Constr_fields =~~= enc->Constr_fields);
        assert(r@ =~~= enc);
    }
    r
}

/// Build the canonical data encoding of a replayed generator state.
pub fn encode_replayed(choices: &Vec<u32>) -> (r: DataValue)
    ensures
        r@ == prng_dat(PrngModel::Replayed { choices: choices@ }),
{
    let ghost enc = prng_dat(PrngModel::Replayed { choices: choices@ });
    let list = choices_to_list(choices);
    let mut fields: Vec<DataValue> = Vec::new();
    fields.push(list);
    proof {
        assert(fields@.len() == 1);
        assert(fields@[0]@ == enc->Constr_fields[0]);
    }
    let r = DataValue::Constr { tag: TAG_OFFSET + REPLAYED, fields };
    proof {
        assert(r@->Constr_fields =~~= enc->Constr_fields);
        assert(r@ =~~= enc);
    }
    r
}

impl Prng {
    /// Whether the cached encoding is the canonical one for this state.
    /// Constructors establish it and every operation preserves it.
    pub open spec fn wf(&self) -> bool {
        match self {
            Prng::Seeded { seed, choices, uplc } => uplc@ == prng_dat(
                PrngModel::Seeded { seed: *seed, choices: choices@ },
            ),
            Prng::Replayed { choices, uplc } => uplc@ == prng_dat(
                PrngModel::Replayed { choices: choices@ },
            ),
        }
    }

    /// Construct a seeded generator with no recorded choices.
    pub fn from_seed(seed: u32) -> (r: Prng)
        ensures
            r@ == (PrngModel::Seeded { seed, choices: Seq::<u32>::empty() }),
            r.wf(),
    {
        let empty: Vec<u32> = Vec::new();
        let uplc = encode_seeded(seed, &empty);
        Prng::Seeded { seed, choices: Vec::new(), uplc }
    }

    /// Construct a replayed generator from a prewritten list of choices,
    /// stored and encoded in consumption order.
    pub fn from_choices(choices: &Vec<u32>) -> (r: Prng)
        ensures
            r@ == (PrngModel::Replayed { choices: choices@ }),
            r.wf(),
    {
        let uplc = encode_replayed(choices);
        Prng::Replayed { choices: copy_choices(choices), uplc }
    }

    /// The cached data encoding of this generator state.
    pub fn uplc(&self) -> (r: DataValue)
        requires
            self.wf(),
        ensures
            r@ == prng_dat(self@),
    {
        match self {
            Prng::Seeded { uplc, .. } => uplc.clone(),
            Prng::Replayed { uplc, .. } => uplc.clone(),
        }
    }

    /// Generate one pseudo-random value: hand this state's encoding to the
    /// fuzzer through the bridge and decode what comes back. A machine
    /// error inside the fuzzer and a malformed reply are both fatal;
    /// `Ok(None)` reports an exhausted or invalid replay.
    pub fn sample<B: VmBridge>(&self, vm: &B) -> (r: Result<Option<(Prng, DataValue)>, FatalError>)
        requires
            self.wf(),
        ensures
            match vm.fuzzer_response(prng_dat(self@)) {
                None => r == Err::<Option<(Prng, DataValue)>, FatalError>(
                    FatalError::FuzzerCrashed,
                ),
                Some(d) => match parse_reply(d) {
                    None => r == Err::<Option<(Prng, DataValue)>, FatalError>(
                        FatalError::MalformedFuzzerResult,
                    ),
                    Some(None) => r matches Ok(None),
                    Some(Some((p, v))) => r matches Ok(Some((prng, value))) && prng@ == p
                        && prng.wf() && value@ == v,
                },
            },
    {
        let encoded = self.uplc();
        match vm.run_fuzzer(&encoded) {
            None => Err(FatalError::FuzzerCrashed),
            Some(reply) => Self::from_result(&reply),
        }
    }

    /// Decode a fuzzer's reply, as [`parse_reply`] fixes it: the new
    /// generator state and the generated value, `Ok(None)` for an exhausted
    /// replay, or the fatal decoding error for any other shape.
    pub fn from_result(result: &DataValue) -> (r: Result<Option<(Prng, DataValue)>, FatalError>)
        ensures
            match parse_reply(result@) {
                None => r == Err::<Option<(Prng, DataValue)>, FatalError>(
                    FatalError::MalformedFuzzerResult,
                ),
                Some(None) => r matches Ok(None),
                Some(Some((p, v))) => r matches Ok(Some((prng, value))) && prng@ == p && prng.wf()
                    && value@ == v,
            },
    {
        match result {
            DataValue::Constr { tag, fields } => {
                if *tag == TAG_OFFSET + SOME_TAG {
                    if fields.len() != 1 {
                        proof {
                            assert(result@->Constr_fields.len() == fields@.len());
                            assert(!is_yield_shape(result@));
                        }
                        return Err(FatalError::MalformedFuzzerResult);
                    }
                    proof {
                        assert(result@->Constr_fields.len() == fields@.len());
                        assert(result@->Constr_fields[0] == fields@[0]@);
                    }
                    match &fields[0] {
                        DataValue::List { items } => {
                            if items.len() != 2 {
                                proof {
                                    assert(result@->Constr_fields[0]->List_items.len()
                                        == items@.len());
                                    assert(!is_yield_shape(result@));
                                }
                                return Err(FatalError::MalformedFuzzerResult);
                            }
                            proof {
                                assert(result@->Constr_fields[0]->List_items.len()
                                    == items@.len());
                                assert(result@->Constr_fields[0]->List_items[0] == items@[0]@);
                                assert(result@->Constr_fields[0]->List_items[1] == items@[1]@);
                            }
                            let value = items[1].clone();
                            match Self::from_prng_data(&items[0]) {
                                Ok(prng) => Ok(Some((prng, value))),
                                Err(e) => Err(e),
                            }
                        },
                        _ => Err(FatalError::MalformedFuzzerResult),
                    }
                } else if *tag == TAG_OFFSET + NONE_TAG {
                    Ok(None)
                } else {
                    Err(FatalError::MalformedFuzzerResult)
                }
            },
            _ => Err(FatalError::MalformedFuzzerResult),
        }
    }

    /// Decode a data value as a generator state, as [`parse_prng`] fixes
    /// it; a copy of the decoded value itself becomes the cached encoding.
    pub(crate) fn from_prng_data(d: &DataValue) -> (r: Result<Prng, FatalError>)
        ensures
            match parse_prng(d@) {
                Some(p) => r matches Ok(prng) && prng@ == p && prng.wf(),
                None => r == Err::<Prng, FatalError>(FatalError::MalformedFuzzerResult),
            },
    {
        match d {
            DataValue::Constr { tag, fields } => {
                proof {
                    assert(d@->Constr_tag == *tag);
                    assert(d@->Constr_fields.len() == fields@.len());
                    assert forall|i: int| 0 <= i < fields@.len() implies d@->Constr_fields[i]
                        == fields@[i].dat() by {}
                }
                if *tag == TAG_OFFSET + SEEDED && fields.len() == 2 {
                    let seed = match &fields[0] {
                        DataValue::Integer { value } => {
                            if 0 <= *value && *value < 0x1_0000_0000i128 {
                                *value as u32
                            } else {
                                return Err(FatalError::MalformedFuzzerResult);
                            }
                        },
                        _ => {
                            return Err(FatalError::MalformedFuzzerResult);
                        },
                    };
                    match &fields[1] {
                        DataValue::List { items } => {
                            proof {
                                assert(fields@[1].dat()->List_items =~= items.deep_view());
                            }
                            match read_choices(items) {
                                Some(choices) => {
                                    proof {
                                        assert(is_seeded_shape(d@));
                                        assert forall|i: int| 0 <= i < choices@.len() implies
                                            choice_list(choices@)->List_items[i]
                                                == items.deep_view()[i] by {
                                            assert(is_choice_int(items.deep_view()[i]));
                                        }
                                        assert(choice_list(choices@)->List_items
                                            =~= items.deep_view());
                                        assert(choice_list(choices@) =~~= d@->Constr_fields[1]);
                                        assert(prng_dat(
                                            PrngModel::Seeded { seed, choices: choices@ },
                                        )->Constr_fields =~~= d@->Constr_fields);
                                        assert(prng_dat(
                                            PrngModel::Seeded { seed, choices: choices@ },
                                        ) =~~= d@);
                                    }
                                    Ok(Prng::Seeded { seed, choices, uplc: d.clone() })
                                },
                                None => Err(FatalError::MalformedFuzzerResult),
                            }
                        },
                        _ => Err(FatalError::MalformedFuzzerResult),
                    }
                } else if *tag == TAG_OFFSET + REPLAYED && fields.len() == 1 {
                    match &fields[0] {
                        DataValue::List { items } => {
                            proof {
                                assert(fields@[0].dat()->List_items =~= items.deep_view());
                            }
                            match read_choices(items) {
                                Some(choices) => {
                                    proof {
                                        assert(is_replayed_shape(d@));
                                        assert forall|i: int| 0 <= i < choices@.len() implies
                                            choice_list(choices@)->List_items[i]
                                                == items.deep_view()[i] by {
                                            assert(is_choice_int(items.deep_view()[i]));
                                        }
                                        assert(choice_list(choices@)->List_items
                                            =~= items.deep_view());
                                        assert(choice_list(choices@) =~~= d@->Constr_fields[0]);
                                        assert(prng_dat(
                                            PrngModel::Replayed { choices: choices@ },
                                        )->Constr_fields =~~= d@->Constr_fields);
                                        assert(prng_dat(PrngModel::Replayed { choices: choices@ })
                                            =~~= d@);
                                    }
                                    Ok(Prng::Replayed { choices, uplc: d.clone() })
                                },
                                None => Err(FatalError::MalformedFuzzerResult),
                            }
                        },
                        _ => Err(FatalError::MalformedFuzzerResult),
                    }
                } else {
                    Err(FatalError::MalformedFuzzerResult)
                }
            },
            _ => Err(FatalError::MalformedFuzzerResult),
        }
    }

    /// The choices made so far, in draw order: a seeded generator stores
    /// them newest first and reverses them here; a replayed one returns its
    /// stored sequence unchanged.
    pub fn choices(&self) -> (r: Vec<u32>)
        ensures
            self@ matches PrngModel::Seeded { choices, .. } ==> r@ == choices.reverse(),
            self@ matches PrngModel::Replayed { choices } ==> r@ == choices,
    {
        match self {
            Prng::Seeded { choices, .. } => {
                let mut out: Vec<u32> = Vec::new();
                let mut i: usize = choices.len();
                while i > 0
                    invariant
                        i <= choices@.len(),
                        out@.len() == choices@.len() - i,
                        forall|j: int|
                            0 <= j < out@.len() ==> out@[j] == choices@[choices@.len() - 1 - j],
                    decreases i,
                {
                    i = i - 1;
                    out.push(choices[i]);
                }
                proof {
                    assert(out@ =~= choices@.reverse());
                }
                out
            },
            Prng::Replayed { choices, .. } => copy_choices(choices),
        }
    }
}

} // verus!
