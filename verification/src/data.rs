//! The tagged data format exchanged with compiled programs: constructors
//! with a numeric tag and ordered fields, integers, byte strings, lists
//! and maps. Sum types are encoded with the conventional tag offset 121,
//! so constructor index `k` appears on the wire as tag `121 + k`.

use vstd::prelude::*;

verus! {

/// The conventional wire-tag offset for user-defined sum types.
pub const TAG_OFFSET: u64 = 121;

/// A data value, as exchanged with compiled programs.
///
/// Integers are held in an `i128`, which covers every integer the
/// driver's protocol produces or reads (seeds and choices are `u32`).
#[derive(Debug)]
pub enum DataValue {
    Constr { tag: u64, fields: Vec<DataValue> },
    Assoc { pairs: Vec<(DataValue, DataValue)> },
    Integer { value: i128 },
    Bytes { bytes: Vec<u8> },
    List { items: Vec<DataValue> },
}

/// The mathematical model of a [`DataValue`].
#[verifier::ext_equal]
pub enum Dat {
    Constr { tag: u64, fields: Seq<Dat> },
    Assoc { pairs: Seq<(Dat, Dat)> },
    Integer { value: int },
    Bytes { bytes: Seq<u8> },
    List { items: Seq<Dat> },
}

impl DataValue {
    /// The mathematical value this data value denotes.
    pub open spec fn dat(&self) -> Dat
        decreases self,
    {
        match self {
            DataValue::Constr { tag, fields } => Dat::Constr {
                tag: *tag,
                fields: Seq::new(
                    fields@.len(),
                    |i: int|
                        if 0 <= i < fields@.len() {
                            fields@[i].dat()
                        } else {
                            Dat::Integer { value: 0 }
                        },
                ),
            },
            DataValue::Assoc { pairs } => Dat::Assoc {
                pairs: Seq::new(
                    pairs@.len(),
                    |i: int|
                        if 0 <= i < pairs@.len() {
                            (pairs@[i].0.dat(), pairs@[i].1.dat())
                        } else {
                            (Dat::Integer { value: 0 }, Dat::Integer { value: 0 })
                        },
                ),
            },
            DataValue::Integer { value } => Dat::Integer { value: *value as int },
            DataValue::Bytes { bytes } => Dat::Bytes { bytes: bytes@ },
            DataValue::List { items } => Dat::List {
                items: Seq::new(
                    items@.len(),
                    |i: int|
                        if 0 <= i < items@.len() {
                            items@[i].dat()
                        } else {
                            Dat::Integer { value: 0 }
                        },
                ),
            },
        }
    }
}

impl View for DataValue {
    type V = Dat;

    #[verifier::inline]
    open spec fn view(&self) -> Dat {
        self.dat()
    }
}

impl DeepView for DataValue {
    type V = Dat;

    #[verifier::inline]
    open spec fn deep_view(&self) -> Dat {
        self.dat()
    }
}

impl Clone for DataValue {
    #[verifier::loop_isolation(false)]
    fn clone(&self) -> (r: DataValue)
        ensures
            r@ == self@,
        decreases self,
    {
        match self {
            DataValue::Constr { tag, fields } => {
                let mut out: Vec<DataValue> = Vec::new();
                let mut i: usize = 0;
                while i < fields.len()
                    invariant
                        i <= fields@.len(),
                        out@.len() == i,
                        forall|j: int| 0 <= j < i ==> out@[j]@ == fields@[j]@,
                    decreases fields@.len() - i,
                {
                    proof {
                        assert(decreases_to!(*fields => fields@[i as int]));
                    }
                    out.push(fields[i].clone());
                    i = i + 1;
                }
                let r = DataValue::Constr { tag: *tag, fields: out };
                proof {
                    assert(r@ matches Dat::Constr { tag: t2, fields: f2 }
                        && self@ matches Dat::Constr { tag: t1, fields: f1 }
                        ==> t1 == t2 && f1 =~= f2);
                }
                r
            },
            DataValue::Assoc { pairs } => {
                let mut out: Vec<(DataValue, DataValue)> = Vec::new();
                let mut i: usize = 0;
                while i < pairs.len()
                    invariant
                        i <= pairs@.len(),
                        out@.len() == i,
                        forall|j: int|
                            0 <= j < i ==> out@[j].0@ == pairs@[j].0@ && out@[j].1@ == pairs@[j].1@,
                    decreases pairs@.len() - i,
                {
                    proof {
                        assert(decreases_to!(*pairs => pairs@[i as int]));
                    }
                    let key = pairs[i].0.clone();
                    let val = pairs[i].1.clone();
                    out.push((key, val));
                    i = i + 1;
                }
                let r = DataValue::Assoc { pairs: out };
                proof {
                    assert(r@ matches Dat::Assoc { pairs: p2 } && self@ matches Dat::Assoc {
                        pairs: p1,
                    } ==> p1 =~= p2);
                }
                r
            },
            DataValue::Integer { value } => DataValue::Integer { value: *value },
            DataValue::Bytes { bytes } => {
                let mut out: Vec<u8> = Vec::new();
                let mut i: usize = 0;
                while i < bytes.len()
                    invariant
                        i <= bytes@.len(),
                        out@.len() == i,
                        forall|j: int| 0 <= j < i ==> out@[j] == bytes@[j],
                    decreases bytes@.len() - i,
                {
                    out.push(bytes[i]);
                    i = i + 1;
                }
                proof {
                    assert(out@ =~= bytes@);
                }
                DataValue::Bytes { bytes: out }
            },
            DataValue::List { items } => {
                let mut out: Vec<DataValue> = Vec::new();
                let mut i: usize = 0;
                while i < items.len()
                    invariant
                        i <= items@.len(),
                        out@.len() == i,
                        forall|j: int| 0 <= j < i ==> out@[j]@ == items@[j]@,
                    decreases items@.len() - i,
                {
                    proof {
                        assert(decreases_to!(*items => items@[i as int]));
                    }
                    out.push(items[i].clone());
                    i = i + 1;
                }
                let r = DataValue::List { items: out };
                proof {
                    assert(r@ matches Dat::List { items: l2 } && self@ matches Dat::List {
                        items: l1,
                    } ==> l1 =~= l2);
                }
                r
            },
        }
    }
}

/// The model of an integer whose value fits the protocol's choices.
pub open spec fn is_integer(d: Dat, value: int) -> bool {
    d == (Dat::Integer { value })
}

/// The model of a list whose items are exactly the given choices, each as
/// an integer, in order.
pub open spec fn is_choice_list(d: Dat, choices: Seq<u32>) -> bool {
    &&& d matches Dat::List { items }
    &&& d->List_items.len() == choices.len()
    &&& forall|i: int|
        0 <= i < choices.len() ==> is_integer(#[trigger] d->List_items[i], choices[i] as int)
}

/// The canonical choice list for a choice sequence.
pub open spec fn choice_list(choices: Seq<u32>) -> Dat {
    Dat::List { items: Seq::new(choices.len(), |i: int| Dat::Integer { value: choices[i] as int }) }
}

/// Build the data list holding each choice as an integer, in order.
pub fn choices_to_list(choices: &Vec<u32>) -> (r: DataValue)
    ensures
        r@ == choice_list(choices@),
        is_choice_list(r@, choices@),
{
    let mut items: Vec<DataValue> = Vec::new();
    let mut i: usize = 0;
    while i < choices.len()
        invariant
            i <= choices@.len(),
            items@.len() == i,
            forall|j: int| 0 <= j < i ==> items@[j]@ == (Dat::Integer { value: choices@[j] as int }),
        decreases choices@.len() - i,
    {
        items.push(DataValue::Integer { value: choices[i] as i128 });
        i = i + 1;
    }
    let r = DataValue::List { items };
    proof {
        assert(r@ matches Dat::List { items: l } ==> l =~= choice_list(choices@)->List_items);
    }
    r
}

} // verus!
