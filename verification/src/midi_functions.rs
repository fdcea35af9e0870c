//! Named control functions and the reverse mapping from combined MIDI
//! events to the function names they drive.

use vstd::prelude::*;
use crate::jackmidi::MidiMsgAdvanced;

verus! {

/// One named control function.
#[derive(Clone, Debug)]
pub struct MidiFunction {
    name: String,
}

impl MidiFunction {
    /// The function's name in spec form.
    pub closed spec fn spec_name(self) -> Seq<char> {
        self.name@
    }

    /// A control function with the given name.
    pub fn new(name: String) -> (r: Self)
        ensures
            r.spec_name() == name@,
    {
        MidiFunction { name }
    }

    /// The function's name.
    pub fn get_name(&self) -> (r: String)
        ensures
            r@ == self.spec_name(),
    {
        self.name.clone()
    }
}

/// The set of control functions read from a configuration file.
#[derive(Debug)]
pub struct MidiFunctionFile {
    pub midi_functions: Vec<MidiFunction>,
}

/// The set of control functions with the interface elements each one
/// drives, keyed by function name in file order.
#[derive(Debug)]
pub struct MidiFunctionWithElementsFile {
    pub midi_functions: Vec<(String, Vec<u16>)>,
}

/// Whether an entry of the reverse mapping carries the event.
pub open spec fn rev_has_key(s: Seq<(MidiMsgAdvanced, Vec<String>)>, m: MidiMsgAdvanced) -> bool {
    exists|i: int| 0 <= i < s.len() && (#[trigger] s[i]).0 == m
}

/// The reverse mapping as a map from events to name sequences; later
/// entries win, which is exact when the keys are unique.
pub open spec fn rev_map_of(s: Seq<(MidiMsgAdvanced, Vec<String>)>) -> Map<
    MidiMsgAdvanced,
    Seq<Seq<char>>,
>
    decreases s.len(),
{
    if s.len() == 0 {
        Map::empty()
    } else {
        rev_map_of(s.drop_last()).insert(
            s.last().0,
            s.last().1@.map_values(|n: String| n@),
        )
    }
}

/// No event occurs twice among the entries.
pub open spec fn rev_unique_keys(s: Seq<(MidiMsgAdvanced, Vec<String>)>) -> bool {
    forall|i: int, j: int| 0 <= i < j < s.len() ==> (#[trigger] s[i]).0 != (#[trigger] s[j]).0
}

/// Fold one function name into the reverse mapping for one event.
pub open spec fn rev_add_one(
    m: Map<MidiMsgAdvanced, Seq<Seq<char>>>,
    msg: MidiMsgAdvanced,
    name: Seq<char>,
) -> Map<MidiMsgAdvanced, Seq<Seq<char>>> {
    if m.dom().contains(msg) {
        m.insert(msg, m[msg].push(name))
    } else {
        m.insert(msg, seq![name])
    }
}

/// Fold one function's whole event list into the reverse mapping.
pub open spec fn rev_add_entry(
    m: Map<MidiMsgAdvanced, Seq<Seq<char>>>,
    name: Seq<char>,
    msgs: Seq<MidiMsgAdvanced>,
) -> Map<MidiMsgAdvanced, Seq<Seq<char>>>
    decreases msgs.len(),
{
    if msgs.len() == 0 {
        m
    } else {
        rev_add_one(rev_add_entry(m, name, msgs.drop_last()), msgs.last(), name)
    }
}

/// The reverse mapping of a whole function table: every event points
/// at the names of the functions it drives, in table order.
pub open spec fn reverse_map_spec(input: Seq<(String, Vec<MidiMsgAdvanced>)>) -> Map<
    MidiMsgAdvanced,
    Seq<Seq<char>>,
>
    decreases input.len(),
{
    if input.len() == 0 {
        Map::empty()
    } else {
        rev_add_entry(
            reverse_map_spec(input.drop_last()),
            input.last().0@,
            input.last().1@,
        )
    }
}

/// Replacing the entry that already carries a key updates the map view
/// the same way an insert does.
proof fn lemma_rev_map_update(
    s: Seq<(MidiMsgAdvanced, Vec<String>)>,
    i: int,
    msg: MidiMsgAdvanced,
    names: Vec<String>,
)
    requires
        rev_unique_keys(s),
        0 <= i < s.len(),
        s[i].0 == msg,
    ensures
        rev_map_of(s.update(i, (msg, names)))
            == rev_map_of(s).insert(msg, names@.map_values(|n: String| n@)),
    decreases s.len(),
{
    let s1 = s.update(i, (msg, names));
    if i == s.len() - 1 {
        assert(s1.drop_last() =~= s.drop_last());
        assert(s1.last() == (msg, names));
        assert(rev_map_of(s1)
            =~= rev_map_of(s).insert(msg, names@.map_values(|n: String| n@)));
    } else {
        assert(s1.drop_last() =~= s.drop_last().update(i, (msg, names)));
        assert(s1.last() == s.last());
        assert(s.drop_last()[i].0 == msg);
        lemma_rev_map_update(s.drop_last(), i, msg, names);
        assert(s.last().0 != msg);
        assert(rev_map_of(s1)
            =~= rev_map_of(s).insert(msg, names@.map_values(|n: String| n@)));
    }
}

/// Build the reverse mapping: walk every function's event list and
/// record the function's name under each event, keeping the events'
/// first-seen order and unique keys.
pub fn reverse_map_midi_functions2midi_advanced_msgs(
    midi_functions_with_midi_advanced_msgs: Vec<(String, Vec<MidiMsgAdvanced>)>,
) -> (r: Vec<(MidiMsgAdvanced, Vec<String>)>)
    ensures
        rev_unique_keys(r@),
        rev_map_of(r@) == reverse_map_spec(midi_functions_with_midi_advanced_msgs@),
{
    let input = midi_functions_with_midi_advanced_msgs;
    let mut out: Vec<(MidiMsgAdvanced, Vec<String>)> = Vec::new();
    let mut e: usize = 0;
    while e < input.len()
        invariant
            e <= input@.len(),
            rev_unique_keys(out@),
            rev_map_of(out@) == reverse_map_spec(input@.take(e as int)),
        decreases input@.len() - e,
    {
        let key = &input[e].0;
        let values = &input[e].1;
        let ghost m0 = rev_map_of(out@);
        let mut v: usize = 0;
        while v < values.len()
            invariant
                v <= values@.len(),
                values == &input@[e as int].1,
                key == &input@[e as int].0,
                e < input@.len(),
                rev_unique_keys(out@),
                rev_map_of(out@) == rev_add_entry(m0, key@, values@.take(v as int)),
            decreases values@.len() - v,
        {
            let ghost out_pre = out@;
            let value = values[v];
            let key_insert = key.clone();
            // Look for the event among the entries built so far.
            let mut found: Option<usize> = None;
            let mut i: usize = 0;
            while i < out.len()
                invariant
                    i <= out@.len(),
                    out@ == out_pre,
                    found matches Some(fi)
                        ==> fi < out@.len() && out@[fi as int].0 == value,
                    found is None ==> forall|j: int| 0 <= j < i
                        ==> (#[trigger] out@[j]).0 != value,
                decreases out@.len() - i,
            {
                if out[i].0 == value {
                    found = Some(i);
                    i = out.len();
                } else {
                    i = i + 1;
                }
            }
            match found {
                Some(fi) => {
                    let pair = out.remove(fi);
                    let msg = pair.0;
                    let mut names = pair.1;
                    names.push(key_insert);
                    out.insert(fi, (msg, names));
                    proof {
                        assert(out@ =~= out_pre.update(fi as int, (msg, names)));
                        lemma_rev_map_update(out_pre, fi as int, msg, names);
                        assert(names@.map_values(|n: String| n@)
                            =~= out_pre[fi as int].1@.map_values(|n: String| n@).push(key@));
                        assert(rev_map_of(out_pre).dom().contains(value)) by {
                            lemma_rev_map_lookup(out_pre, fi as int);
                        }
                        assert(rev_map_of(out_pre)[value]
                            == out_pre[fi as int].1@.map_values(|n: String| n@)) by {
                            lemma_rev_map_lookup(out_pre, fi as int);
                        }
                        assert(values@.take(v + 1).drop_last() =~= values@.take(v as int));
                        assert(rev_unique_keys(out@)) by {
                            assert forall|a: int, b: int| 0 <= a < b < out@.len()
                                implies (#[trigger] out@[a]).0 != (#[trigger] out@[b]).0 by {
                                assert(out@[a].0 == out_pre[a].0);
                                assert(out@[b].0 == out_pre[b].0);
                            }
                        }
                    }
                },
                None => {
                    let mut names: Vec<String> = Vec::new();
                    names.push(key_insert);
                    out.push((value, names));
                    proof {
                        assert(out@.drop_last() =~= out_pre);
                        assert(names@.map_values(|n: String| n@) =~= seq![key@]);
                        assert(!rev_map_of(out_pre).dom().contains(value)) by {
                            lemma_rev_map_no_key(out_pre, value);
                        }
                        assert(values@.take(v + 1).drop_last() =~= values@.take(v as int));
                        assert(rev_unique_keys(out@)) by {
                            assert forall|a: int, b: int| 0 <= a < b < out@.len()
                                implies (#[trigger] out@[a]).0 != (#[trigger] out@[b]).0 by {
                                if b < out_pre.len() {
                                    assert(out@[a].0 == out_pre[a].0);
                                    assert(out@[b].0 == out_pre[b].0);
                                } else {
                                    assert(out@[a].0 == out_pre[a].0);
                                    assert(out@[b].0 == value);
                                }
                            }
                        }
                    }
                },
            }
            v = v + 1;
        }
        proof {
            assert(values@.take(values@.len() as int) =~= values@);
            assert(input@.take(e + 1).drop_last() =~= input@.take(e as int));
            assert(input@.take(e + 1).last() == input@[e as int]);
        }
        e = e + 1;
    }
    proof {
        assert(input@.take(input@.len() as int) =~= input@);
    }
    out
}

/// Under unique keys, the map view holds exactly the entry's names at
/// the entry's event.
proof fn lemma_rev_map_lookup(s: Seq<(MidiMsgAdvanced, Vec<String>)>, i: int)
    requires
        rev_unique_keys(s),
        0 <= i < s.len(),
    ensures
        rev_map_of(s).dom().contains(s[i].0),
        rev_map_of(s)[s[i].0] == s[i].1@.map_values(|n: String| n@),
    decreases s.len(),
{
    if i == s.len() - 1 {
    } else {
        lemma_rev_map_lookup(s.drop_last(), i);
        assert(s.drop_last()[i] == s[i]);
        assert(s.last().0 != s[i].0);
    }
}

/// An event carried by no entry is not in the map view's domain.
proof fn lemma_rev_map_no_key(s: Seq<(MidiMsgAdvanced, Vec<String>)>, m: MidiMsgAdvanced)
    requires
        forall|j: int| 0 <= j < s.len() ==> (#[trigger] s[j]).0 != m,
    ensures
        !rev_map_of(s).dom().contains(m),
    decreases s.len(),
{
    if s.len() > 0 {
        lemma_rev_map_no_key(s.drop_last(), m);
    }
}

} // verus!
