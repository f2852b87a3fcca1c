//! A pure reference implementation of the virtual-machine bridge. Its
//! fuzzer mirrors the canonical byte fuzzer: a seeded state draws one byte
//! per call from a linear-congruential scrambling of the seed and records
//! it, while a replayed state consumes its prewritten choices and reports
//! exhaustion or an out-of-range choice as `None`. Its test program is one
//! of a few simple predicates on the generated integer. Faulty fuzzers are
//! also available, so the driver's fatal paths can be exercised.

use vstd::prelude::*;

use crate::data::{Dat, DataValue, TAG_OFFSET};
use crate::prng::{
    encode_replayed, encode_seeded, parse_prng, prng_dat, Prng, PrngModel, NONE_TAG, SOME_TAG,
};
use crate::vm::{CostBudget, EvalModel, Evaluation, TermModel, VmBridge, VmTerm};

verus! {

/// The fuzzers the reference machine can stand for.
#[derive(Debug, Clone, Copy, PartialEq, Eq, Structural)]
pub enum ModelFuzzer {
    /// The canonical byte fuzzer: one draw in 0..=255 per call.
    DrawByte,
    /// A fuzzer that makes no draws and yields a constant integer.
    ConstantInt { value: i128 },
    /// A fuzzer whose evaluation errors out.
    Crash,
    /// A fuzzer that always reports exhaustion, even when seeded.
    Exhaust,
    /// A fuzzer that returns data of no valid reply shape.
    Garbage,
}

/// The test programs the reference machine can stand for, as predicates on
/// the generated integer; a non-integer value never satisfies them.
#[derive(Debug, Clone, Copy, PartialEq, Eq, Structural)]
pub enum ModelProperty {
    NonNegative,
    IsEven,
    AlwaysTrue,
    AlwaysFalse,
}

/// A reference virtual machine holding one fuzzer and one test program.
#[derive(Debug, Clone, Copy, PartialEq, Eq, Structural)]
pub struct ModelVm {
    pub fuzzer: ModelFuzzer,
    pub property: ModelProperty,
}

/// The linear-congruential scrambling that evolves the byte fuzzer's seed.
pub open spec fn next_of(seed: u32) -> u32 {
    ((seed as int * 1664525 + 1013904223) % 0x1_0000_0000) as u32
}

/// The byte the fuzzer draws from a seed.
pub open spec fn byte_of(seed: u32) -> u32 {
    next_of(seed) % 256
}

/// The wire encoding of a fuzzer's `None` reply.
pub open spec fn none_reply() -> Dat {
    Dat::Constr { tag: (TAG_OFFSET + NONE_TAG) as u64, fields: Seq::<Dat>::empty() }
}

/// The wire encoding of a fuzzer's `Some` reply: the new generator state
/// and the generated value, as a two-item list in one field.
pub open spec fn yield_reply(state: Dat, value: Dat) -> Dat {
    Dat::Constr {
        tag: (TAG_OFFSET + SOME_TAG) as u64,
        fields: seq![Dat::List { items: seq![state, value] }],
    }
}

/// Whether the model's test program holds of a generated value.
pub open spec fn prop_holds(property: ModelProperty, value: Dat) -> bool {
    match property {
        ModelProperty::NonNegative => value matches Dat::Integer { .. } && value->Integer_value
            >= 0,
        ModelProperty::IsEven => value matches Dat::Integer { .. } && value->Integer_value % 2
            == 0,
        ModelProperty::AlwaysTrue => true,
        ModelProperty::AlwaysFalse => false,
    }
}

/// Build the wire encoding of a fuzzer's `None` reply.
fn make_none_reply() -> (r: DataValue)
    ensures
        r@ == none_reply(),
{
    let r = DataValue::Constr { tag: TAG_OFFSET + NONE_TAG, fields: Vec::new() };
    proof {
        assert(r@->Constr_fields =~~= none_reply()->Constr_fields);
        assert(r@ =~~= none_reply());
    }
    r
}

/// Build the wire encoding of a fuzzer's `Some` reply.
fn make_yield_reply(state: DataValue, value: DataValue) -> (r: DataValue)
    ensures
        r@ == yield_reply(state@, value@),
{
    let ghost enc = yield_reply(state@, value@);
    let mut items: Vec<DataValue> = Vec::new();
    items.push(state);
    items.push(value);
    proof {
        assert(items@.len() == 2);
        assert(items@[0]@ == enc->Constr_fields[0]->List_items[0]);
        assert(items@[1]@ == enc->Constr_fields[0]->List_items[1]);
    }
    let pair = DataValue::List { items };
    proof {
        assert(pair@->List_items =~~= enc->Constr_fields[0]->List_items);
        assert(pair@ =~~= enc->Constr_fields[0]);
    }
    let mut fields: Vec<DataValue> = Vec::new();
    fields.push(pair);
    proof {
        assert(fields@.len() == 1);
        assert(fields@[0]@ == enc->Constr_fields[0]);
    }
    let r = DataValue::Constr { tag: TAG_OFFSET + SOME_TAG, fields };
    proof {
        assert(r@->Constr_fields =~~= enc->Constr_fields);
        assert(r@ =~~= enc);
    }
    r
}

impl VmBridge for ModelVm {
    open spec fn fuzzer_response(&self, prng: Dat) -> Option<Dat> {
        match self.fuzzer {
            ModelFuzzer::Crash => None,
            ModelFuzzer::Exhaust => Some(none_reply()),
            ModelFuzzer::Garbage => Some(Dat::Integer { value: 0 }),
            ModelFuzzer::ConstantInt { value } => Some(
                yield_reply(prng, Dat::Integer { value: value as int }),
            ),
            ModelFuzzer::DrawByte => Some(
                match parse_prng(prng) {
                    Some(PrngModel::Seeded { seed, choices }) => yield_reply(
                        prng_dat(
                            PrngModel::Seeded {
                                seed: next_of(seed),
                                choices: seq![byte_of(seed)] + choices,
                            },
                        ),
                        Dat::Integer { value: byte_of(seed) as int },
                    ),
                    Some(PrngModel::Replayed { choices }) => if choices.len() == 0 {
                        none_reply()
                    } else if choices[0] <= 255 {
                        yield_reply(
                            prng_dat(
                                PrngModel::Replayed {
                                    choices: choices.subrange(1, choices.len() as int),
                                },
                            ),
                            Dat::Integer { value: choices[0] as int },
                        )
                    } else {
                        none_reply()
                    },
                    None => none_reply(),
                },
            ),
        }
    }

    open spec fn test_evaluation(&self, value: Dat) -> EvalModel {
        EvalModel {
            result: Ok(TermModel::Bool { value: prop_holds(self.property, value) }),
            spent: CostBudget { mem: 0, cpu: 0 },
            logs: Seq::<Seq<char>>::empty(),
        }
    }

    fn run_fuzzer(&self, prng: &DataValue) -> (r: Option<DataValue>)
        ensures
            r is Some <==> self.fuzzer_response(prng@) is Some,
            r matches Some(d) ==> self.fuzzer_response(prng@) == Some(d@),
    {
        match self.fuzzer {
            ModelFuzzer::Crash => None,
            ModelFuzzer::Exhaust => Some(make_none_reply()),
            ModelFuzzer::Garbage => Some(DataValue::Integer { value: 0 }),
            ModelFuzzer::ConstantInt { value } => Some(
                make_yield_reply(prng.clone(), DataValue::Integer { value }),
            ),
            ModelFuzzer::DrawByte => {
                match Prng::from_prng_data(prng) {
                    Err(_) => Some(make_none_reply()),
                    Ok(decoded) => match decoded {
                        Prng::Seeded { seed, choices, .. } => {
                            let n = seed.wrapping_mul(1664525).wrapping_add(1013904223);
                            proof {
                                lemma_scramble(seed);
                            }
                            let b = n % 256;
                            let mut drawn: Vec<u32> = Vec::new();
                            drawn.push(b);
                            let mut t: usize = 0;
                            while t < choices.len()
                                invariant
                                    t <= choices@.len(),
                                    drawn@.len() == t + 1,
                                    drawn@[0] == b,
                                    forall|u: int| 0 <= u < t ==> drawn@[u + 1] == choices@[u],
                                decreases choices@.len() - t,
                            {
                                drawn.push(choices[t]);
                                t = t + 1;
                            }
                            proof {
                                assert(drawn@ =~= seq![b] + choices@);
                            }
                            let state = encode_seeded(n, &drawn);
                            Some(make_yield_reply(state, DataValue::Integer { value: b as i128 }))
                        },
                        Prng::Replayed { choices, .. } => {
                            if choices.len() == 0 {
                                Some(make_none_reply())
                            } else if choices[0] <= 255 {
                                let head = choices[0];
                                let mut tail: Vec<u32> = Vec::new();
                                let mut t: usize = 1;
                                while t < choices.len()
                                    invariant
                                        1 <= t <= choices@.len(),
                                        tail@.len() == t - 1,
                                        forall|u: int| 0 <= u < t - 1 ==> tail@[u] == choices@[u
                                            + 1],
                                    decreases choices@.len() - t,
                                {
                                    tail.push(choices[t]);
                                    t = t + 1;
                                }
                                proof {
                                    assert(tail@ =~= choices@.subrange(1, choices@.len() as int));
                                }
                                let state = encode_replayed(&tail);
                                Some(
                                    make_yield_reply(
                                        state,
                                        DataValue::Integer { value: head as i128 },
                                    ),
                                )
                            } else {
                                Some(make_none_reply())
                            }
                        },
                    },
                }
            },
        }
    }

    fn run_test(&self, value: &DataValue) -> (r: Evaluation)
        ensures
            r@ == self.test_evaluation(value@),
    {
        let holds: bool = match self.property {
            ModelProperty::NonNegative => match value {
                DataValue::Integer { value: v } => *v >= 0,
                _ => false,
            },
            ModelProperty::IsEven => match value {
                DataValue::Integer { value: v } => *v % 2 == 0,
                _ => false,
            },
            ModelProperty::AlwaysTrue => true,
            ModelProperty::AlwaysFalse => false,
        };
        let r = Evaluation {
            result: Ok(VmTerm::Bool { value: holds }),
            spent: CostBudget { mem: 0, cpu: 0 },
            logs: Vec::new(),
        };
        proof {
            assert(r@ =~~= self.test_evaluation(value@));
        }
        r
    }
}

/// One draw of the seeded byte fuzzer: the reply carries the scrambled
/// seed with the drawn byte recorded first, and the byte as the value.
pub proof fn lemma_seeded_step(vm: ModelVm, seed: u32, stored: Seq<u32>)
    requires
        vm.fuzzer == ModelFuzzer::DrawByte,
    ensures
        ({
            let reply = vm.fuzzer_response(prng_dat(PrngModel::Seeded { seed, choices: stored }));
            &&& reply matches Some(d)
            &&& crate::prng::parse_reply(reply->Some_0) == Some(
                Some(
                    (
                        PrngModel::Seeded {
                            seed: next_of(seed),
                            choices: seq![byte_of(seed)] + stored,
                        },
                        Dat::Integer { value: byte_of(seed) as int },
                    ),
                ),
            )
        }),
{
    crate::prng::lemma_parse_prng_dat(PrngModel::Seeded { seed, choices: stored });
    let newp = PrngModel::Seeded { seed: next_of(seed), choices: seq![byte_of(seed)] + stored };
    crate::prng::lemma_parse_prng_dat(newp);
    let d = yield_reply(prng_dat(newp), Dat::Integer { value: byte_of(seed) as int });
    assert(crate::prng::is_yield_shape(d));
}

/// Replaying a draw-order choice list that starts with a seed's recorded
/// byte yields exactly that byte again, with the rest of the list left to
/// replay: the round trip from a seeded run to a replayed run preserves
/// the drawn value, and by induction on the remaining list, the whole
/// sequence of values.
pub proof fn lemma_replay_round_trip(vm: ModelVm, seed: u32, rest: Seq<u32>)
    requires
        vm.fuzzer == ModelFuzzer::DrawByte,
    ensures
        ({
            let reply = vm.fuzzer_response(
                prng_dat(PrngModel::Replayed { choices: seq![byte_of(seed)] + rest }),
            );
            &&& reply matches Some(d)
            &&& crate::prng::parse_reply(reply->Some_0) == Some(
                Some(
                    (
                        PrngModel::Replayed { choices: rest },
                        Dat::Integer { value: byte_of(seed) as int },
                    ),
                ),
            )
        }),
{
    let full = seq![byte_of(seed)] + rest;
    crate::prng::lemma_parse_prng_dat(PrngModel::Replayed { choices: full });
    crate::prng::lemma_parse_prng_dat(PrngModel::Replayed { choices: rest });
    assert(full[0] == byte_of(seed) && byte_of(seed) <= 255);
    assert(full.subrange(1, full.len() as int) =~= rest);
    let d = yield_reply(
        prng_dat(PrngModel::Replayed { choices: rest }),
        Dat::Integer { value: byte_of(seed) as int },
    );
    assert(crate::prng::is_yield_shape(d));
}

/// The wrapping scrambling steps compute [`next_of`].
proof fn lemma_scramble(seed: u32)
    ensures
        ((seed as int * 1664525) % 0x1_0000_0000 + 1013904223) % 0x1_0000_0000 == next_of(
            seed,
        ) as int,
{
    let m = seed as int * 1664525;
    let w: int = 0x1_0000_0000;
    vstd::arithmetic::div_mod::lemma_fundamental_div_mod(m, w);
    vstd::arithmetic::div_mod::lemma_mod_multiples_vanish(m / w, m % w + 1013904223, w);
}

} // verus!
