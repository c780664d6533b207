use vstd::prelude::*;
use crate::note::{Note, pitch_class, note_above, lemma_pitch_class_range, lemma_spelled_pitch_class};
use crate::text::same_text;

verus! {

/// A distance in semitones. Values of twelve and more are kept as they are;
/// names are taken from the value modulo twelve.
#[derive(Debug, Clone, Copy, PartialEq, Eq, Structural)]
pub struct Interval {
    pub value: u32,
}

/// The name of an interval of `v` semitones, read modulo twelve: a quality
/// letter (P perfect, m minor, M major, d diminished) and a degree number.
pub open spec fn interval_name(v: int) -> Seq<char> {
    let r = v % 12;
    if r == 0 { "P1"@ }
    else if r == 1 { "m2"@ }
    else if r == 2 { "M2"@ }
    else if r == 3 { "m3"@ }
    else if r == 4 { "M3"@ }
    else if r == 5 { "P4"@ }
    else if r == 6 { "d5"@ }
    else if r == 7 { "P5"@ }
    else if r == 8 { "m6"@ }
    else if r == 9 { "M6"@ }
    else if r == 10 { "m7"@ }
    else { "M7"@ }
}

/// The first value from `u` up to eleven whose name is `s`, if any.
pub open spec fn interval_named_from(s: Seq<char>, u: int) -> Option<u32>
    decreases 12 - u,
{
    if u >= 12 {
        None
    } else if interval_name(u) == s {
        Some(u as u32)
    } else {
        interval_named_from(s, u + 1)
    }
}

/// The value in 0..12 whose name is `s`, if any.
pub open spec fn interval_named(s: Seq<char>) -> Option<u32> {
    interval_named_from(s, 0)
}

/// The note reached from `n` by `k` upward semitone steps.
pub open spec fn note_after_steps(n: Note, k: nat) -> Note
    decreases k,
{
    if k == 0 {
        n
    } else {
        note_above(note_after_steps(n, (k - 1) as nat))
    }
}

/// The semitone distance from `from` up to `to`, in 0..12.
pub open spec fn semitones_between(from: Note, to: Note) -> int {
    (pitch_class(to) - pitch_class(from) + 12) % 12
}

/// The sum of a sequence of semitone values.
pub open spec fn total(s: Seq<u32>) -> int
    decreases s.len(),
{
    if s.len() == 0 {
        0
    } else {
        total(s.drop_last()) + s.last()
    }
}

/// `s` turned left by `k` places: the element at `k` comes first and those
/// before it move to the end.
pub open spec fn rotated<A>(s: Seq<A>, k: int) -> Seq<A> {
    Seq::new(s.len(), |i: int| s[(i + k) % (s.len() as int)])
}

/// The semitone values of a sequence of intervals.
pub open spec fn interval_values(s: Seq<Interval>) -> Seq<u32> {
    s.map_values(|i: Interval| i.value)
}

/// Stepping up `k` semitones moves the pitch class by `k`, modulo twelve.
pub proof fn lemma_steps_pitch_class(n: Note, k: nat)
    ensures
        pitch_class(note_after_steps(n, k)) == (pitch_class(n) + k) % 12,
    decreases k,
{
    lemma_pitch_class_range(n);
    if k > 0 {
        lemma_steps_pitch_class(n, (k - 1) as nat);
        let prev = note_after_steps(n, (k - 1) as nat);
        lemma_pitch_class_range(prev);
        lemma_spelled_pitch_class((pitch_class(prev) + 1) % 12);
    }
}

/// The lookup from `u` finds `v` when no value between them has its name.
proof fn lemma_named_from(s: Seq<char>, u: int, v: int)
    requires
        0 <= u <= v < 12,
        s == interval_name(v),
        forall|w: int| u <= w < v ==> interval_name(w) != s,
    ensures
        interval_named_from(s, u) == Some(v as u32),
    decreases v - u,
{
    if u < v {
        lemma_named_from(s, u + 1, v);
    }
}

/// Reading the name of an interval of less than twelve semitones gives back
/// its value.
pub proof fn lemma_name_round_trip(v: u32)
    requires
        v < 12,
    ensures
        interval_named(interval_name(v as int)) == Some(v),
{
    reveal_strlit("P1");
    reveal_strlit("m2");
    reveal_strlit("M2");
    reveal_strlit("m3");
    reveal_strlit("M3");
    reveal_strlit("P4");
    reveal_strlit("d5");
    reveal_strlit("P5");
    reveal_strlit("m6");
    reveal_strlit("M6");
    reveal_strlit("m7");
    reveal_strlit("M7");
    assert forall|w: int| 0 <= w < v implies interval_name(w) != interval_name(v as int) by {
        let a = interval_name(w);
        let b = interval_name(v as int);
        assert(a[0] != b[0] || a[1] != b[1]);
    }
    lemma_named_from(interval_name(v as int), 0, v as int);
}

/// A prefix of a sequence of values sums to no more than the whole.
pub proof fn lemma_total_prefix(s: Seq<u32>, k: int)
    requires
        0 <= k <= s.len(),
    ensures
        0 <= total(s.take(k)) <= total(s),
    decreases s.len(),
{
    if s.len() > 0 {
        if k == s.len() {
            assert(s.take(k) =~= s);
            lemma_total_prefix(s.drop_last(), k - 1);
            assert(s.drop_last().take(k - 1) =~= s.drop_last());
        } else {
            lemma_total_prefix(s.drop_last(), k);
            assert(s.drop_last().take(k) =~= s.take(k));
        }
    }
}

/// A sequence of values each at most `b` sums to at most `b` times its length.
pub proof fn lemma_total_bound(s: Seq<u32>, b: int)
    requires
        forall|i: int| 0 <= i < s.len() ==> s[i] <= b,
    ensures
        total(s) <= b * s.len(),
    decreases s.len(),
{
    if s.len() > 0 {
        lemma_total_bound(s.drop_last(), b);
        assert(b * s.len() == b * (s.len() - 1) + b) by (nonlinear_arith);
    }
}

impl Interval {
    /// An interval of `value` semitones.
    pub fn new(value: u32) -> (r: Interval)
        ensures
            r.value == value,
    {
        Interval { value }
    }

    /// The number of semitones.
    pub fn get_value(&self) -> (r: u32)
        ensures
            r == self.value,
    {
        self.value
    }

    /// The interval from `from` up to the next `to`, in 0..12 semitones.
    pub fn from_notes(from: &Note, to: &Note) -> (r: Interval)
        ensures
            r.value == semitones_between(*from, *to),
    {
        if to.get_index() >= from.get_index() {
            Interval::new(to.get_index() - from.get_index())
        } else {
            Interval::new(12 + to.get_index() - from.get_index())
        }
    }

    /// The interval named `s`, looked up among the values 0 to 11.
    pub fn from_name(s: &str) -> (r: Option<Interval>)
        ensures
            match interval_named(s@) {
                Some(v) => r == Some(Interval { value: v }),
                None => r is None,
            },
    {
        let mut u: u32 = 0;
        while u < 12
            invariant
                0 <= u <= 12,
                interval_named(s@) == interval_named_from(s@, u as int),
            decreases 12 - u,
        {
            let interval = Interval::new(u);
            let name = interval.to_string();
            if same_text(name.as_str(), s) {
                return Some(interval);
            }
            u += 1;
        }
        None
    }

    /// The note reached by stepping up from `obj` one semitone at a time,
    /// `value` times.
    pub fn apply(&self, obj: &Note) -> (r: Note)
        ensures
            r == note_after_steps(*obj, self.value as nat),
    {
        let mut res = *obj;
        let mut k: u32 = 0;
        while k < self.value
            invariant
                0 <= k <= self.value,
                res == note_after_steps(*obj, k as nat),
            decreases self.value - k,
        {
            res = res.next();
            k += 1;
        }
        res
    }

    /// The interval's name, taken from its value modulo twelve.
    pub fn to_string(&self) -> (r: String)
        ensures
            r@ == interval_name(self.value as int),
    {
        let r = self.value % 12;
        if r == 0 {
            String::from_str("P1")
        } else if r == 1 {
            String::from_str("m2")
        } else if r == 2 {
            String::from_str("M2")
        } else if r == 3 {
            String::from_str("m3")
        } else if r == 4 {
            String::from_str("M3")
        } else if r == 5 {
            String::from_str("P4")
        } else if r == 6 {
            String::from_str("d5")
        } else if r == 7 {
            String::from_str("P5")
        } else if r == 8 {
            String::from_str("m6")
        } else if r == 9 {
            String::from_str("M6")
        } else if r == 10 {
            String::from_str("m7")
        } else {
            String::from_str("M7")
        }
    }
}

/// The running totals of `steps`, starting from an interval of nothing: the
/// intervals from a root to each note of a stack built from those steps.
pub fn running_totals(steps: &Vec<Interval>) -> (r: Vec<Interval>)
    requires
        total(interval_values(steps@)) <= u32::MAX,
    ensures
        r@.len() == steps@.len() + 1,
        forall|k: int| 0 <= k <= steps@.len() ==> (#[trigger] r@[k]).value == total(interval_values(steps@).take(k)),
{
    let ghost vals = interval_values(steps@);
    let mut res: Vec<Interval> = vec![Interval::new(0)];
    let mut sum: u32 = 0;
    let mut i: usize = 0;
    proof {
        assert(vals.take(0) =~= Seq::<u32>::empty());
    }
    while i < steps.len()
        invariant
            0 <= i <= steps@.len(),
            vals == interval_values(steps@),
            vals.len() == steps@.len(),
            total(vals) <= u32::MAX,
            sum == total(vals.take(i as int)),
            res@.len() == i + 1,
            forall|k: int| 0 <= k <= i ==> (#[trigger] res@[k]).value == total(vals.take(k)),
        decreases steps.len() - i,
    {
        proof {
            lemma_total_prefix(vals, i + 1);
            assert(vals.take(i + 1).drop_last() =~= vals.take(i as int));
        }
        sum = sum + steps[i].value;
        res.push(Interval::new(sum));
        i += 1;
    }
    res
}

/// Intervals of the given semitone values, in order.
pub fn intervals_of(values: &Vec<u32>) -> (r: Vec<Interval>)
    ensures
        interval_values(r@) == values@,
{
    let mut res: Vec<Interval> = Vec::new();
    let mut i: usize = 0;
    while i < values.len()
        invariant
            0 <= i <= values@.len(),
            res@.len() == i,
            forall|k: int| 0 <= k < i ==> (#[trigger] res@[k]).value == values@[k],
        decreases values.len() - i,
    {
        res.push(Interval::new(values[i]));
        i += 1;
    }
    assert(interval_values(res@) =~= values@);
    res
}

/// Whether two sequences of intervals have the same values, in order.
pub fn same_intervals(a: &Vec<Interval>, b: &Vec<Interval>) -> (r: bool)
    ensures
        r == (interval_values(a@) == interval_values(b@)),
{
    if a.len() != b.len() {
        assert(interval_values(a@).len() != interval_values(b@).len());
        return false;
    }
    let mut i: usize = 0;
    while i < a.len()
        invariant
            0 <= i <= a@.len(),
            a@.len() == b@.len(),
            forall|k: int| 0 <= k < i ==> a@[k].value == b@[k].value,
        decreases a.len() - i,
    {
        if a[i].value != b[i].value {
            assert(interval_values(a@)[i as int] != interval_values(b@)[i as int]);
            return false;
        }
        i += 1;
    }
    assert(interval_values(a@) =~= interval_values(b@));
    true
}

} // verus!
