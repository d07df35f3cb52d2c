use vstd::prelude::*;
use crate::captions::strings;
use crate::text::str_eq;

verus! {

/// A microphone, by the name the system gives it.
#[derive(Clone, Debug)]
pub struct AudioSource {
    pub name: String,
}

/// `s` without the items that already occurred earlier in it.
pub open spec fn distinct_names(s: Seq<Seq<char>>) -> Seq<Seq<char>>
    decreases s.len(),
{
    if s.len() == 0 {
        seq![]
    } else {
        let init = distinct_names(s.drop_last());
        if init.contains(s.last()) {
            init
        } else {
            init.push(s.last())
        }
    }
}

/// The name an optional string holds, as a list of zero or one names.
pub open spec fn listed(o: Option<String>) -> Seq<Seq<char>> {
    match o {
        Some(d) => seq![d@],
        None => Seq::<Seq<char>>::empty(),
    }
}

proof fn lemma_distinct_names(s: Seq<Seq<char>>)
    ensures
        forall|i: int, j: int|
            0 <= i < j < distinct_names(s).len() ==> distinct_names(s)[i] != distinct_names(s)[j],
        forall|x: Seq<char>| distinct_names(s).contains(x) <==> s.contains(x),
        s.len() > 0 ==> distinct_names(s).len() > 0 && distinct_names(s)[0] == s[0],
    decreases s.len(),
{
    if s.len() > 0 {
        let init = distinct_names(s.drop_last());
        lemma_distinct_names(s.drop_last());
        assert forall|x: Seq<char>| distinct_names(s).contains(x) <==> s.contains(x) by {
            if s.contains(x) && x != s.last() {
                let k = choose|k: int| 0 <= k < s.len() && s[k] == x;
                assert(s.drop_last()[k] == x);
            }
            if s.drop_last().contains(x) {
                let k = choose|k: int| 0 <= k < s.drop_last().len() && s.drop_last()[k] == x;
                assert(s[k] == x);
            }
            if !init.contains(s.last()) {
                assert(init.push(s.last())[init.len() as int] == s.last());
                if init.push(s.last()).contains(x) {
                    let k = choose|k: int| 0 <= k < init.len() + 1 && init.push(s.last())[k] == x;
                    if k < init.len() {
                        assert(init[k] == x);
                    }
                }
                if init.contains(x) {
                    let k = choose|k: int| 0 <= k < init.len() && init[k] == x;
                    assert(init.push(s.last())[k] == x);
                }
            }
            assert(s[s.len() - 1] == s.last());
        }
        if s.len() == 1 {
            assert(s.drop_last().len() == 0);
            assert(init.len() == 0);
        } else {
            assert(s.drop_last()[0] == s[0]);
        }
    }
}

/// The merged microphone list names no microphone twice, holds exactly the names it was
/// given, and starts with the default input when there is one.
pub proof fn lemma_mic_list(default: Option<String>, devices: Seq<String>)
    ensures
        ({
            let all = listed(default) + strings(devices);
            let r = distinct_names(all);
            &&& forall|i: int, j: int| 0 <= i < j < r.len() ==> r[i] != r[j]
            &&& forall|x: Seq<char>| r.contains(x) <==> all.contains(x)
            &&& (default matches Some(d) ==> r.len() > 0 && r[0] == d@)
        }),
{
    let all = listed(default) + strings(devices);
    lemma_distinct_names(all);
    if let Some(d) = default {
        assert(all[0] == d@);
    }
}

/// Whether `name` is among `names`; the first position where it is.
pub fn position_of(names: &Vec<String>, name: &str) -> (r: Option<usize>)
    ensures
        match r {
            Some(i) => i < names@.len() && names@[i as int]@ == name@ && forall|k: int|
                0 <= k < i ==> (#[trigger] names@[k])@ != name@,
            None => forall|k: int| 0 <= k < names@.len() ==> (#[trigger] names@[k])@ != name@,
        },
{
    let mut i: usize = 0;
    while i < names.len()
        invariant
            0 <= i <= names@.len(),
            forall|k: int| 0 <= k < i ==> (#[trigger] names@[k])@ != name@,
        decreases names@.len() - i,
    {
        if str_eq(names[i].as_str(), name) {
            return Some(i);
        }
        i = i + 1;
    }
    None
}

/// The microphone list: the default input first, then every other input device, each name
/// once.
pub fn merge_mic_names(default: Option<String>, devices: Vec<String>) -> (r: Vec<AudioSource>)
    ensures
        r@.map_values(|m: AudioSource| m.name@) == distinct_names(listed(default) + strings(devices@)),
{
    let ghost all = listed(default) + strings(devices@);
    let mut names: Vec<String> = Vec::new();
    let mut n: usize = 0;
    match default {
        Some(d) => {
            names.push(d);
            n = 1;
        },
        None => {},
    }
    let ghost first = strings(names@);
    proof {
        if n == 1 {
            assert(all.take(1).drop_last() =~= Seq::<Seq<char>>::empty());
            assert(distinct_names(Seq::<Seq<char>>::empty()) == Seq::<Seq<char>>::empty());
            assert(strings(names@) =~= distinct_names(all.take(1)));
        } else {
            assert(all.take(0) =~= Seq::<Seq<char>>::empty());
            assert(strings(names@) =~= distinct_names(all.take(0)));
        }
    }
    let mut i: usize = 0;
    while i < devices.len()
        invariant
            0 <= i <= devices@.len(),
            n <= 1,
            all.len() == n + devices@.len(),
            forall|k: int| 0 <= k < devices@.len() ==> all[n + k] == #[trigger] devices@[k]@,
            strings(names@) == distinct_names(all.take(n + i)),
        decreases devices@.len() - i,
    {
        let ghost before = strings(names@);
        let ghost p = all.take(n + i + 1);
        assert(p.drop_last() =~= all.take(n + i));
        assert(p.last() == devices@[i as int]@);
        let found = position_of(&names, devices[i].as_str());
        match found {
            Some(k) => {
                assert(before[k as int] == devices@[i as int]@);
                assert(before.contains(devices@[i as int]@));
            },
            None => {
                assert(!before.contains(devices@[i as int]@)) by {
                    if before.contains(devices@[i as int]@) {
                        let k = choose|k: int| 0 <= k < before.len() && before[k] == devices@[i as int]@;
                        assert(names@[k]@ == before[k]);
                    }
                }
                names.push(devices[i].clone());
                assert(strings(names@) =~= before.push(devices@[i as int]@));
            },
        }
        i = i + 1;
    }
    assert(all.take(n + devices@.len()) =~= all);
    let mut out: Vec<AudioSource> = Vec::new();
    let mut j: usize = 0;
    while j < names.len()
        invariant
            0 <= j <= names@.len(),
            out@.len() == j,
            forall|k: int| 0 <= k < j ==> (#[trigger] out@[k]).name@ == names@[k]@,
        decreases names@.len() - j,
    {
        out.push(AudioSource { name: names[j].clone() });
        j = j + 1;
    }
    assert(out@.map_values(|m: AudioSource| m.name@) =~= strings(names@));
    out
}

/// The position of the device to keep selected after the list was read again: the
/// selected one if it is still there, otherwise the first, otherwise none.
pub fn reselect(selected: Option<&str>, names: &Vec<String>) -> (r: Option<usize>)
    ensures
        match r {
            Some(i) => i < names@.len() && match selected {
                Some(s) => if exists|k: int| 0 <= k < names@.len() && (#[trigger] names@[k])@ == s@ {
                    names@[i as int]@ == s@
                } else {
                    i == 0
                },
                None => i == 0,
            },
            None => names@.len() == 0,
        },
{
    if let Some(s) = selected {
        if let Some(i) = position_of(names, s) {
            return Some(i);
        }
    }
    if names.len() > 0 {
        Some(0)
    } else {
        None
    }
}

} // verus!
