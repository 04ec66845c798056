//! Timing of the screen effects: how long each effect runs, the time it
//! leaves over for what follows, and when it is done. Durations are whole
//! milliseconds; what an effect draws is not modelled here.
use vstd::prelude::*;

use crate::layout::Rect;

verus! {

/// Counts down the duration of an effect.
#[derive(Clone, Copy, Debug, PartialEq, Eq, Structural)]
pub struct EffectTimer {
    pub remaining: u64,
    pub total: u64,
    /// The effect plays backwards.
    pub reverse: bool,
}

/// Time left on a timer after `d` more milliseconds.
pub open spec fn timer_left(remaining: u64, d: u64) -> u64 {
    if d > remaining {
        0
    } else {
        (remaining - d) as u64
    }
}

/// Time a timer leaves over after `d` more milliseconds: what is beyond its end.
pub open spec fn timer_over(remaining: u64, d: u64) -> Option<u64> {
    if d > remaining {
        Some((d - remaining) as u64)
    } else {
        None
    }
}

impl EffectTimer {
    pub fn from_ms(duration: u32) -> (r: EffectTimer)
        ensures
            r.remaining == duration,
            r.total == duration,
            !r.reverse,
    {
        EffectTimer { remaining: duration as u64, total: duration as u64, reverse: false }
    }

    /// The same timer, playing the other way.
    pub fn reversed(self) -> (r: EffectTimer)
        ensures
            r == (EffectTimer { reverse: !self.reverse, ..self }),
    {
        EffectTimer { reverse: !self.reverse, ..self }
    }

    /// Some time has been spent on the timer.
    pub fn started(&self) -> (r: bool)
        ensures
            r == (self.total != self.remaining),
    {
        self.total != self.remaining
    }

    /// Spends `d` milliseconds, returning the time beyond the timer's end.
    pub fn process(&mut self, d: u64) -> (r: Option<u64>)
        ensures
            *final(self) == (EffectTimer { remaining: timer_left(old(self).remaining, d), ..*old(self) }),
            r == timer_over(old(self).remaining, d),
    {
        if d > self.remaining {
            let over = d - self.remaining;
            self.remaining = 0;
            Some(over)
        } else {
            self.remaining = self.remaining - d;
            None
        }
    }

    /// The timer has run out.
    pub fn done(&self) -> (r: bool)
        ensures
            r == (self.remaining == 0),
    {
        self.remaining == 0
    }
}

/// Spends the time of a single tick, then is done.
#[derive(Clone, Copy, Debug, Default, PartialEq, Eq, Structural)]
pub struct ConsumeTick {
    pub has_consumed_tick: bool,
}

/// Runs an effect without ever being done.
#[derive(Debug)]
pub struct NeverComplete {
    pub effect: Box<Effect>,
}

/// A screen effect, as far as its timing goes.
#[derive(Debug)]
pub enum Effect {
    /// Waits for the timer.
    Sleep(EffectTimer),
    /// An effect drawn along its timer (a fade, a dissolve, a sweep).
    Timed(EffectTimer),
    ConsumeTick(ConsumeTick),
    NeverComplete(NeverComplete),
    /// Runs the effect until the timer runs out or the effect is done.
    Temporary(Box<Effect>, EffectTimer),
    /// Runs the effects one after the other; the index of the current one.
    Sequence(Vec<Effect>, usize),
    /// Runs the effects at the same time.
    Parallel(Vec<Effect>),
    /// Maps the screen's colors to the 256-color palette, forever.
    Ansi256,
}

impl NeverComplete {
    pub fn new(effect: Effect) -> (r: NeverComplete)
        ensures
            *r.effect == effect,
    {
        NeverComplete { effect: Box::new(effect) }
    }
}

/// The effect has finished.
pub open spec fn fx_done(e: Effect) -> bool
    decreases e,
{
    match e {
        Effect::Sleep(t) => t.remaining == 0,
        Effect::Timed(t) => t.remaining == 0,
        Effect::ConsumeTick(c) => c.has_consumed_tick,
        Effect::NeverComplete(_) => false,
        Effect::Temporary(inner, t) => t.remaining == 0 || fx_done(*inner),
        Effect::Sequence(es, cur) => cur >= es@.len(),
        Effect::Parallel(es) => forall|i: int| 0 <= i < es@.len() ==> fx_done(#[trigger] es@[i]),
        Effect::Ansi256 => false,
    }
}

/// The time an effect leaves over when given `d` milliseconds.
pub open spec fn fx_over(e: Effect, d: u64) -> Option<u64>
    decreases e, 0int,
{
    match e {
        Effect::Sleep(t) => timer_over(t.remaining, d),
        Effect::Timed(t) => timer_over(t.remaining, d),
        Effect::ConsumeTick(_) => None,
        Effect::NeverComplete(_) => None,
        Effect::Temporary(_, t) => timer_over(t.remaining, d),
        Effect::Sequence(es, cur) => seq_rem_at(es@, cur as int, d, es@.len() as int),
        Effect::Parallel(es) => par_over(es@, d, es@.len() as int),
        Effect::Ansi256 => None,
    }
}

/// Whether an effect is done once given `d` milliseconds.
pub open spec fn fx_done_after(e: Effect, d: u64) -> bool
    decreases e, 0int,
{
    match e {
        Effect::Sleep(t) => timer_left(t.remaining, d) == 0,
        Effect::Timed(t) => timer_left(t.remaining, d) == 0,
        Effect::ConsumeTick(_) => true,
        Effect::NeverComplete(_) => false,
        Effect::Temporary(inner, t) => timer_left(t.remaining, d) == 0 || fx_done_after(*inner, d),
        Effect::Sequence(es, cur) => seq_cur_at(es@, cur as int, d, es@.len() as int) >= es@.len(),
        Effect::Parallel(es) => forall|i: int|
            0 <= i < es@.len() ==> fx_done(#[trigger] es@[i]) || fx_done_after(es@[i], d),
        Effect::Ansi256 => false,
    }
}

/// In a sequence started at `k0` with `d` milliseconds, the time still to
/// hand out when reaching the effect at `j`: each effect passes on what it
/// leaves over; none once an effect keeps the rest.
pub open spec fn seq_rem_at(s: Seq<Effect>, k0: int, d: u64, j: int) -> Option<u64>
    decreases s, j,
{
    if j <= k0 || j <= 0 || j > s.len() {
        if j == k0 {
            Some(d)
        } else if j < k0 {
            Some(d)
        } else {
            None
        }
    } else {
        match seq_rem_at(s, k0, d, j - 1) {
            Some(x) => fx_over(s[j - 1], x),
            None => None,
        }
    }
}

/// In a sequence started at `k0` with `d` milliseconds, the current effect
/// once the effects before `j` had their turn: it moves past each effect
/// that is done.
pub open spec fn seq_cur_at(s: Seq<Effect>, k0: int, d: u64, j: int) -> int
    decreases s, j,
{
    if j <= k0 || j <= 0 || j > s.len() {
        k0
    } else {
        let c = seq_cur_at(s, k0, d, j - 1);
        match seq_rem_at(s, k0, d, j - 1) {
            Some(x) => if fx_done_after(s[j - 1], x) {
                j
            } else {
                c
            },
            None => c,
        }
    }
}

/// The time the effects before `n` of a parallel group leave over when each
/// running one gets `d` milliseconds: the least of what they leave over,
/// none as soon as one keeps it all.
pub open spec fn par_over(s: Seq<Effect>, d: u64, n: int) -> Option<u64>
    decreases s, n,
{
    if n <= 0 || n > s.len() {
        Some(d)
    } else {
        let acc = par_over(s, d, n - 1);
        if fx_done(s[n - 1]) {
            acc
        } else {
            match fx_over(s[n - 1], d) {
                None => None,
                Some(x) => match acc {
                    Some(y) => Some(if x < y {
                        x
                    } else {
                        y
                    }),
                    None => None,
                },
            }
        }
    }
}

/// `new` is what an effect becomes once given `d` milliseconds: timers
/// count down, a tick is consumed, wrapped effects run along; a sequence
/// hands the time to its effects in turn from the current one, each passing
/// on what it leaves over; a parallel group gives it to each running effect.
pub open spec fn fx_next(e: Effect, d: u64, new: Effect) -> bool
    decreases e, 0int,
{
    match e {
        Effect::Sleep(t) => new == Effect::Sleep(
            EffectTimer { remaining: timer_left(t.remaining, d), ..t },
        ),
        Effect::Timed(t) => new == Effect::Timed(
            EffectTimer { remaining: timer_left(t.remaining, d), ..t },
        ),
        Effect::ConsumeTick(_) => new == Effect::ConsumeTick(ConsumeTick { has_consumed_tick: true }),
        Effect::NeverComplete(n) => (new matches Effect::NeverComplete(m) && fx_next(
            *n.effect,
            d,
            *m.effect,
        )),
        Effect::Temporary(inner, t) => (new matches Effect::Temporary(i2, t2) && t2 == (
        EffectTimer { remaining: timer_left(t.remaining, d), ..t }) && fx_next(*inner, d, *i2)),
        Effect::Sequence(es, cur) => (new matches Effect::Sequence(n, c2) && n@.len() == es@.len()
            && c2 == seq_cur_at(es@, cur as int, d, es@.len() as int) && forall|j: int|
            0 <= j < es@.len() ==> (if cur <= j && seq_rem_at(es@, cur as int, d, j) is Some {
                fx_next(es@[j], seq_rem_at(es@, cur as int, d, j)->0, #[trigger] n@[j])
            } else {
                n@[j] == es@[j]
            })),
        Effect::Parallel(es) => (new matches Effect::Parallel(n) && n@.len() == es@.len() && forall|
            i: int,
        |
            0 <= i < es@.len() ==> (if fx_done(es@[i]) {
                #[trigger] n@[i] == es@[i]
            } else {
                fx_next(es@[i], d, n@[i])
            })),
        Effect::Ansi256 => new is Ansi256,
    }
}

/// In a sequence started at `k0` with `d` milliseconds, the effect at `j`
/// had its turn: time reached it, and `cur[j]` is what it became.
pub open spec fn took_turn(o: Seq<Effect>, cur: Seq<Effect>, k0: int, d: u64, j: int) -> bool {
    seq_rem_at(o, k0, d, j) is Some && fx_next(o[j], seq_rem_at(o, k0, d, j)->0, cur[j])
}

/// An effect that leaves time over is done.
pub proof fn lemma_over_means_done(e: Effect, d: u64)
    ensures
        fx_over(e, d) is Some ==> fx_done_after(e, d),
    decreases e, 0int,
{
    match e {
        Effect::Sequence(es, cur) => {
            if cur <= es@.len() {
                lemma_seq_cur(es@, cur as int, d, es@.len() as int);
            } else {
                assert(seq_cur_at(es@, cur as int, d, es@.len() as int) == cur);
            }
        },
        Effect::Parallel(es) => {
            lemma_par_over(es@, d, es@.len() as int);
        },
        Effect::Temporary(_, t) => {
            assert(fx_over(e, d) == timer_over(t.remaining, d));
        },
        _ => {},
    }
}

/// In a sequence, as long as time is left to hand out, every effect passed
/// is done and the current one is the next to get time.
proof fn lemma_seq_cur(s: Seq<Effect>, k0: int, d: u64, j: int)
    requires
        0 <= k0 <= j <= s.len(),
    ensures
        seq_rem_at(s, k0, d, j) is Some ==> seq_cur_at(s, k0, d, j) == j,
    decreases s, j,
{
    if j > k0 {
        lemma_seq_cur(s, k0, d, j - 1);
        if let Some(x) = seq_rem_at(s, k0, d, j - 1) {
            lemma_over_means_done(s[j - 1], x);
        }
    }
}

/// Once a sequence has no time left to hand out, nothing changes further on.
proof fn lemma_rem_none_stays(s: Seq<Effect>, k0: int, d: u64, i: int, j: int)
    requires
        k0 <= i <= j <= s.len(),
        seq_rem_at(s, k0, d, i) is None,
    ensures
        seq_rem_at(s, k0, d, j) is None,
        seq_cur_at(s, k0, d, j) == seq_cur_at(s, k0, d, i),
    decreases j - i,
{
    if j > i {
        lemma_rem_none_stays(s, k0, d, i, j - 1);
    }
}

/// In a parallel group that leaves time over, every effect is done.
proof fn lemma_par_over(s: Seq<Effect>, d: u64, n: int)
    requires
        0 <= n <= s.len(),
    ensures
        par_over(s, d, n) is Some ==> forall|i: int|
            0 <= i < n ==> fx_done(#[trigger] s[i]) || fx_done_after(s[i], d),
    decreases s, n,
{
    if n > 0 {
        lemma_par_over(s, d, n - 1);
        lemma_over_means_done(s[n - 1], d);
    }
}

/// What an effect becomes is done exactly when the effect is done after
/// the time it got.
pub proof fn lemma_next_done(e: Effect, d: u64, new: Effect)
    requires
        fx_next(e, d, new),
    ensures
        fx_done(new) == fx_done_after(e, d),
    decreases e, 0int,
{
    match e {
        Effect::Temporary(inner, t) => {
            if let Effect::Temporary(i2, t2) = new {
                lemma_next_done(*inner, d, *i2);
            }
        },
        Effect::Parallel(es) => {
            if let Effect::Parallel(n) = new {
                assert forall|i: int| 0 <= i < es@.len() implies fx_done(#[trigger] n@[i]) == (fx_done(
                    es@[i],
                ) || fx_done_after(es@[i], d)) by {
                    if !fx_done(es@[i]) {
                        lemma_next_done(es@[i], d, n@[i]);
                    }
                }
                if fx_done_after(e, d) {
                    assert forall|i: int| 0 <= i < n@.len() implies fx_done(#[trigger] n@[i]) by {
                        assert(fx_done(es@[i]) || fx_done_after(es@[i], d));
                    }
                    assert(fx_done(new));
                }
                if fx_done(new) {
                    assert forall|i: int| 0 <= i < es@.len() implies fx_done(#[trigger] es@[i])
                        || fx_done_after(es@[i], d) by {
                        assert(fx_done(n@[i]));
                    }
                    assert(fx_done_after(e, d));
                }
            }
        },
        _ => {},
    }
}

impl Effect {
    /// The effect has finished.
    pub fn done(&self) -> (r: bool)
        ensures
            r == fx_done(*self),
        decreases self,
    {
        match self {
            Effect::Sleep(t) => t.done(),
            Effect::Timed(t) => t.done(),
            Effect::ConsumeTick(c) => c.has_consumed_tick,
            Effect::NeverComplete(_) => false,
            Effect::Temporary(inner, t) => t.done() || inner.done(),
            Effect::Sequence(es, cur) => *cur >= es.len(),
            Effect::Parallel(es) => {
                proof {
                    assert(decreases_to!(*self => *es));
                    assert(decreases_to!(*es => es@));
                }
                let mut i: usize = 0;
                while i < es.len()
                    invariant
                        i <= es@.len(),
                        decreases_to!(*self => es@),
                        fx_done(*self) == (forall|k: int| 0 <= k < es@.len() ==> fx_done(#[trigger] es@[k])),
                        forall|k: int| 0 <= k < i ==> fx_done(#[trigger] es@[k]),
                    decreases es@.len() - i,
                {
                    proof {
                        assert(decreases_to!(es@ => es@[i as int]));
                    }
                    if !es[i].done() {
                        assert(fx_done(*self) ==> fx_done(es@[i as int]));
                        return false;
                    }
                    i = i + 1;
                }
                true
            },
            Effect::Ansi256 => false,
        }
    }

    /// Gives the effect `d` milliseconds, returning the time it leaves over.
    pub fn process(&mut self, d: u64) -> (r: Option<u64>)
        ensures
            r == fx_over(*old(self), d),
            fx_next(*old(self), d, *final(self)),
        decreases *old(self),
    {
        match self {
            Effect::Sleep(t) => t.process(d),
            Effect::Timed(t) => t.process(d),
            Effect::ConsumeTick(c) => {
                c.has_consumed_tick = true;
                None
            },
            Effect::NeverComplete(n) => {
                (&mut *n.effect).process(d);
                None
            },
            Effect::Temporary(inner, t) => {
                let r = t.process(d);
                (&mut **inner).process(d);
                r
            },
            Effect::Sequence(es, cur) => {
                let ghost ov = *es;
                let ghost o = es@;
                proof {
                    assert(decreases_to!(*old(self) => ov));
                    assert(decreases_to!(ov => ov@));
                }
                let ghost k0 = *cur as int;
                let n = es.len();
                let mut rem: Option<u64> = Some(d);
                let ghost mut i: int = k0;
                while rem.is_some() && *cur < n
                    invariant
                        n == o.len(),
                        o == ov@,
                        decreases_to!(*old(self) => ov@),
                        es@.len() == n,
                        0 <= k0 <= *cur <= i,
                        i <= (if k0 <= n {
                            n as int
                        } else {
                            k0
                        }),
                        i - *cur <= 1,
                        i > *cur ==> rem is None,
                        rem == seq_rem_at(o, k0, d, i),
                        *cur == seq_cur_at(o, k0, d, i),
                        forall|j: int| 0 <= j < n && !(k0 <= j < i) ==> #[trigger] es@[j] == o[j],
                        forall|j: int| k0 <= j < i && j < n ==> #[trigger] took_turn(o, es@, k0, d, j),
                    decreases 2 * (n - *cur) + (if rem is Some { 1int } else { 0int }),
                {
                    let k = *cur;
                    let x = rem.unwrap();
                    let ghost before = es@;
                    let mut e = es.remove(k);
                    assert(e == o[k as int]);
                    proof {
                        assert(decreases_to!(o => o[k as int]));
                    }
                    let r = e.process(x);
                    proof {
                        lemma_over_means_done(o[k as int], x);
                        lemma_next_done(o[k as int], x, e);
                    }
                    let dn = e.done();
                    let ghost e_new = e;
                    es.insert(k, e);
                    assert(es@ =~= before.update(k as int, e_new));
                    rem = r;
                    if dn {
                        *cur = k + 1;
                    }
                    proof {
                        i = k + 1;
                        assert(es@ == before.update(k as int, e_new));
                        assert forall|j: int| k0 <= j < i && j < n implies #[trigger] took_turn(o, es@, k0, d, j) by {
                            if j < k {
                                assert(took_turn(o, before, k0, d, j));
                                assert(es@[j] == before[j]);
                            }
                        }
                    }
                }
                proof {
                    if rem is None && i <= n {
                        lemma_rem_none_stays(o, k0, d, i, n as int);
                        assert forall|j: int| i <= j < n implies seq_rem_at(o, k0, d, j) is None by {
                            lemma_rem_none_stays(o, k0, d, i, j);
                        }
                    }
                    assert forall|j: int| 0 <= j < n implies (if k0 <= j && seq_rem_at(o, k0, d, j) is Some {
                        fx_next(o[j], seq_rem_at(o, k0, d, j)->0, #[trigger] es@[j])
                    } else {
                        es@[j] == o[j]
                    }) by {
                        if k0 <= j < i {
                            assert(took_turn(o, es@, k0, d, j));
                        }
                    }
                }
                rem
            },
            Effect::Parallel(es) => {
                let ghost ov = *es;
                let ghost o = es@;
                proof {
                    assert(decreases_to!(*old(self) => ov));
                    assert(decreases_to!(ov => ov@));
                }
                let n = es.len();
                let mut acc: Option<u64> = Some(d);
                let mut i: usize = 0;
                while i < n
                    invariant
                        n == o.len(),
                        o == ov@,
                        decreases_to!(*old(self) => ov@),
                        es@.len() == n,
                        i <= n,
                        acc == par_over(o, d, i as int),
                        forall|j: int| i <= j < n ==> #[trigger] es@[j] == o[j],
                        forall|j: int|
                            0 <= j < i ==> (if fx_done(o[j]) {
                                #[trigger] es@[j] == o[j]
                            } else {
                                fx_next(o[j], d, es@[j])
                            }),
                    decreases n - i,
                {
                    let ghost before = es@;
                    let mut e = es.remove(i);
                    assert(e == o[i as int]);
                    proof {
                        assert(decreases_to!(o => o[i as int]));
                    }
                    if !e.done() {
                        let r = e.process(d);
                        acc = match r {
                            None => None,
                            Some(x) => match acc {
                                Some(y) => Some(if x < y { x } else { y }),
                                None => None,
                            },
                        };
                    }
                    let ghost e_new = e;
                    es.insert(i, e);
                    assert(es@ =~= before.update(i as int, e_new));
                    i = i + 1;
                }
                acc
            },
            Effect::Ansi256 => None,
        }
    }
}

/// Runs an effect forever: it is processed but never done.
pub fn never_complete(effect: Effect) -> (r: Effect)
    ensures
        r matches Effect::NeverComplete(n) && *n.effect == effect,
{
    Effect::NeverComplete(NeverComplete::new(effect))
}

/// Runs the effects one after the other; done once the last is done.
pub fn sequence(effects: Vec<Effect>) -> (r: Effect)
    ensures
        r matches Effect::Sequence(es, cur) && es == effects && cur == 0,
{
    Effect::Sequence(effects, 0)
}

/// Runs the effects at the same time; done once all are done.
pub fn parallel(effects: Vec<Effect>) -> (r: Effect)
    ensures
        r == Effect::Parallel(effects),
{
    Effect::Parallel(effects)
}

/// Pauses for the given duration.
pub fn sleep(duration: u32) -> (r: Effect)
    ensures
        r == Effect::Sleep(EffectTimer { remaining: duration as u64, total: duration as u64, reverse: false }),
{
    Effect::Sleep(EffectTimer::from_ms(duration))
}

/// Runs an effect for at most the given duration.
pub fn temporary(duration: u32, effect: Effect) -> (r: Effect)
    ensures
        r matches Effect::Temporary(inner, t) && *inner == effect && t == (EffectTimer {
            remaining: duration as u64,
            total: duration as u64,
            reverse: false,
        }),
{
    Effect::Temporary(Box::new(effect), EffectTimer::from_ms(duration))
}

/// Consumes a single tick.
pub fn consume_tick() -> (r: Effect)
    ensures
        r == Effect::ConsumeTick(ConsumeTick { has_consumed_tick: false }),
{
    Effect::ConsumeTick(ConsumeTick { has_consumed_tick: false })
}

/// Maps the screen to the 256-color palette (what it draws is
/// [`ansi256_colors`]); never done.
pub fn term256_colors() -> (r: Effect)
    ensures
        r is Ansi256,
{
    Effect::Ansi256
}

/// The effects of a sequence run one after another: when time reaches an
/// effect, every effect from the current one up to it had its turn and is
/// done with the time it got.
pub proof fn lemma_sequence_in_order(es: Seq<Effect>, cur: int, d: u64, j: int, k: int)
    requires
        0 <= cur <= k < j <= es.len(),
        seq_rem_at(es, cur, d, j) is Some,
    ensures
        seq_rem_at(es, cur, d, k) is Some,
        fx_done_after(es[k], seq_rem_at(es, cur, d, k)->0),
    decreases j,
{
    let x = seq_rem_at(es, cur, d, j - 1);
    assert(x is Some);
    lemma_over_means_done(es[j - 1], x->0);
    if k < j - 1 {
        lemma_sequence_in_order(es, cur, d, j - 1, k);
    }
}

/// In a sequence started at `k0`, the current effect after the effects
/// before `j` had their turn is at most `j`.
proof fn lemma_seq_cur_bound(s: Seq<Effect>, k0: int, d: u64, j: int)
    requires
        0 <= k0 <= j <= s.len(),
    ensures
        k0 <= seq_cur_at(s, k0, d, j) <= j,
    decreases j,
{
    if j > k0 {
        lemma_seq_cur_bound(s, k0, d, j - 1);
    }
}

/// A running sequence becomes done exactly when time reaches its last
/// effect and that effect is done with the time it got.
pub proof fn lemma_sequence_done_with_last(es: Seq<Effect>, cur: int, d: u64)
    requires
        0 <= cur < es.len(),
    ensures
        (seq_cur_at(es, cur, d, es.len() as int) >= es.len()) <==> (seq_rem_at(
            es,
            cur,
            d,
            es.len() - 1,
        ) is Some && fx_done_after(es[es.len() - 1], seq_rem_at(es, cur, d, es.len() - 1)->0)),
{
    lemma_seq_cur_bound(es, cur, d, es.len() - 1);
}

/// `states` is a history of an effect over the frame times `ds`: each
/// state is what the one before became after its frame.
pub open spec fn fx_history(states: Seq<Effect>, ds: Seq<u64>) -> bool {
    &&& states.len() == ds.len() + 1
    &&& forall|i: int| 0 <= i < ds.len() ==> fx_next(#[trigger] states[i], ds[i], states[i + 1])
}

/// The effects of a parallel group (none for another effect).
pub open spec fn par_parts(e: Effect) -> Seq<Effect> {
    match e {
        Effect::Parallel(v) => v@,
        _ => Seq::empty(),
    }
}

/// The effects of a sequence (none for another effect).
pub open spec fn seq_parts(e: Effect) -> Seq<Effect> {
    match e {
        Effect::Sequence(v, _) => v@,
        _ => Seq::empty(),
    }
}

/// The current effect of a sequence (0 for another effect).
pub open spec fn seq_current(e: Effect) -> int {
    match e {
        Effect::Sequence(_, c) => c as int,
        _ => 0,
    }
}

proof fn lemma_never_history_at(states: Seq<Effect>, ds: Seq<u64>, i: int)
    requires
        fx_history(states, ds),
        states[0] is NeverComplete,
        0 <= i < states.len(),
    ensures
        states[i] is NeverComplete,
    decreases i,
{
    if i > 0 {
        lemma_never_history_at(states, ds, i - 1);
        assert(fx_next(states[i - 1], ds[i - 1], states[i]));
    }
}

/// Over any history, a never-completing effect stays one, is never done,
/// and keeps every frame's time.
pub proof fn lemma_never_completes_ever(inner: Effect, states: Seq<Effect>, ds: Seq<u64>)
    requires
        fx_history(states, ds),
        states[0] == Effect::NeverComplete(NeverComplete { effect: Box::new(inner) }),
    ensures
        forall|i: int| 0 <= i < states.len() ==> #[trigger] states[i] is NeverComplete && !fx_done(states[i]),
        forall|i: int| 0 <= i < ds.len() ==> fx_over(#[trigger] states[i], ds[i]) is None,
{
    assert forall|i: int| 0 <= i < states.len() implies #[trigger] states[i] is NeverComplete && !fx_done(states[i]) by {
        lemma_never_history_at(states, ds, i);
    }
    assert forall|i: int| 0 <= i < ds.len() implies fx_over(#[trigger] states[i], ds[i]) is None by {
        lemma_never_history_at(states, ds, i);
    }
}

proof fn lemma_parallel_history_at(states: Seq<Effect>, ds: Seq<u64>, n: int, i: int)
    requires
        fx_history(states, ds),
        states[0] is Parallel,
        par_parts(states[0]).len() == n,
        0 <= i < states.len(),
    ensures
        states[i] is Parallel,
        par_parts(states[i]).len() == n,
    decreases i,
{
    if i > 0 {
        lemma_parallel_history_at(states, ds, n, i - 1);
        assert(fx_next(states[i - 1], ds[i - 1], states[i]));
    }
}

/// Over any history, a parallel group keeps its effects; each frame goes
/// to every effect not yet done while the done ones stay as they are; and
/// the group is done exactly when every one of its effects is.
pub proof fn lemma_parallel_history(states: Seq<Effect>, ds: Seq<u64>, n: int)
    requires
        fx_history(states, ds),
        states[0] is Parallel,
        par_parts(states[0]).len() == n,
    ensures
        forall|i: int|
            0 <= i < states.len() ==> #[trigger] states[i] is Parallel && par_parts(states[i]).len()
                == n && (fx_done(states[i]) <==> forall|k: int|
                0 <= k < n ==> fx_done(#[trigger] par_parts(states[i])[k])),
        forall|i: int, k: int|
            0 <= i < ds.len() && 0 <= k < n ==> if fx_done(#[trigger] par_parts(states[i])[k]) {
                par_parts(states[i + 1])[k] == par_parts(states[i])[k]
            } else {
                fx_next(par_parts(states[i])[k], ds[i], par_parts(states[i + 1])[k])
            },
{
    assert forall|i: int| 0 <= i < states.len() implies #[trigger] states[i] is Parallel && par_parts(states[i]).len()
        == n && (fx_done(states[i]) <==> forall|k: int|
        0 <= k < n ==> fx_done(#[trigger] par_parts(states[i])[k])) by {
        lemma_parallel_history_at(states, ds, n, i);
    }
    assert forall|i: int, k: int| 0 <= i < ds.len() && 0 <= k < n implies if fx_done(
        #[trigger] par_parts(states[i])[k],
    ) {
        par_parts(states[i + 1])[k] == par_parts(states[i])[k]
    } else {
        fx_next(par_parts(states[i])[k], ds[i], par_parts(states[i + 1])[k])
    } by {
        lemma_parallel_history_at(states, ds, n, i);
        assert(fx_next(states[i], ds[i], states[i + 1]));
    }
}

proof fn lemma_sequence_history_at(states: Seq<Effect>, ds: Seq<u64>, n: int, i: int)
    requires
        fx_history(states, ds),
        states[0] is Sequence,
        seq_parts(states[0]).len() == n,
        0 <= seq_current(states[0]) <= n,
        0 <= i < states.len(),
    ensures
        states[i] is Sequence,
        seq_parts(states[i]).len() == n,
        seq_current(states[0]) <= seq_current(states[i]) <= n,
    decreases i,
{
    if i > 0 {
        lemma_sequence_history_at(states, ds, n, i - 1);
        assert(fx_next(states[i - 1], ds[i - 1], states[i]));
        lemma_seq_cur_bound(seq_parts(states[i - 1]), seq_current(states[i - 1]), ds[i - 1], n);
    }
}

/// Over any history, a sequence keeps its effects and its current effect
/// only moves forward; each frame goes to the effects in list order: an
/// effect before the current one never changes, an effect that time does
/// not reach stays as it is, and time reaches an effect only when every
/// effect from the current one up to it is done with the time it got. The
/// sequence is done exactly when its current effect has passed the last.
pub proof fn lemma_sequence_history(states: Seq<Effect>, ds: Seq<u64>, n: int)
    requires
        fx_history(states, ds),
        states[0] is Sequence,
        seq_parts(states[0]).len() == n,
        0 <= seq_current(states[0]) <= n,
    ensures
        forall|i: int|
            0 <= i < states.len() ==> #[trigger] states[i] is Sequence && seq_parts(states[i]).len()
                == n && seq_current(states[i]) <= n && (fx_done(states[i]) <==> seq_current(states[i])
                >= n),
        forall|i: int| 0 <= i < ds.len() ==> seq_current(#[trigger] states[i]) <= seq_current(states[i + 1]),
        forall|i: int, j: int|
            0 <= i < ds.len() && 0 <= j < seq_current(states[i]) ==> #[trigger] seq_parts(states[i + 1])[j]
                == seq_parts(states[i])[j],
        forall|i: int, j: int|
            0 <= i < ds.len() && seq_current(states[i]) <= j < n && seq_rem_at(
                seq_parts(states[i]),
                seq_current(states[i]),
                ds[i],
                j,
            ) is None ==> #[trigger] seq_parts(states[i + 1])[j] == seq_parts(states[i])[j],
        forall|i: int, j: int, k: int|
            0 <= i < ds.len() && seq_current(states[i]) <= k < j < n && #[trigger] seq_rem_at(
                seq_parts(states[i]),
                seq_current(states[i]),
                ds[i],
                j,
            ) is Some ==> fx_done_after(
                #[trigger] seq_parts(states[i])[k],
                seq_rem_at(seq_parts(states[i]), seq_current(states[i]), ds[i], k)->0,
            ),
{
    assert forall|i: int| 0 <= i < states.len() implies #[trigger] states[i] is Sequence && seq_parts(states[i]).len()
        == n && seq_current(states[i]) <= n && (fx_done(states[i]) <==> seq_current(states[i]) >= n) by {
        lemma_sequence_history_at(states, ds, n, i);
    }
    assert forall|i: int| 0 <= i < ds.len() implies seq_current(#[trigger] states[i]) <= seq_current(states[i + 1]) by {
        lemma_sequence_history_at(states, ds, n, i);
        assert(fx_next(states[i], ds[i], states[i + 1]));
        lemma_seq_cur_bound(seq_parts(states[i]), seq_current(states[i]), ds[i], n);
    }
    assert forall|i: int, j: int| 0 <= i < ds.len() && 0 <= j < seq_current(states[i]) implies #[trigger] seq_parts(states[i + 1])[j]
        == seq_parts(states[i])[j] by {
        lemma_sequence_history_at(states, ds, n, i);
        assert(fx_next(states[i], ds[i], states[i + 1]));
    }
    assert forall|i: int, j: int|
        0 <= i < ds.len() && seq_current(states[i]) <= j < n && seq_rem_at(
            seq_parts(states[i]),
            seq_current(states[i]),
            ds[i],
            j,
        ) is None implies #[trigger] seq_parts(states[i + 1])[j] == seq_parts(states[i])[j] by {
        lemma_sequence_history_at(states, ds, n, i);
        assert(fx_next(states[i], ds[i], states[i + 1]));
    }
    assert forall|i: int, j: int, k: int|
        0 <= i < ds.len() && seq_current(states[i]) <= k < j < n && #[trigger] seq_rem_at(
            seq_parts(states[i]),
            seq_current(states[i]),
            ds[i],
            j,
        ) is Some implies fx_done_after(
        #[trigger] seq_parts(states[i])[k],
        seq_rem_at(seq_parts(states[i]), seq_current(states[i]), ds[i], k)->0,
    ) by {
        lemma_sequence_in_order(seq_parts(states[i]), seq_current(states[i]), ds[i], j, k);
    }
}

/// A wrapped effect never reports completion, however much time it gets.
pub proof fn lemma_never_completes(inner: Effect, d: u64, new: Effect)
    requires
        fx_next(Effect::NeverComplete(NeverComplete { effect: Box::new(inner) }), d, new),
    ensures
        !fx_done(new),
        fx_over(Effect::NeverComplete(NeverComplete { effect: Box::new(inner) }), d) is None,
{
}

/// A tick consumer is done after one tick, and keeps the whole tick.
pub proof fn lemma_tick_consumed(c: ConsumeTick, d: u64, new: Effect)
    requires
        fx_next(Effect::ConsumeTick(c), d, new),
    ensures
        fx_done(new),
        fx_over(Effect::ConsumeTick(c), d) is None,
{
}

/// A temporary effect is done once its duration has passed, whatever the
/// effect it runs.
pub proof fn lemma_temporary_expires(inner: Effect, t: EffectTimer, d: u64, new: Effect)
    requires
        fx_next(Effect::Temporary(Box::new(inner), t), d, new),
        d >= t.remaining,
    ensures
        fx_done(new),
{
}

/// Counting down a timer in two steps is counting down the total at once.
pub proof fn lemma_timer_steps_add(remaining: u64, a: u64, b: u64)
    requires
        a + b <= u64::MAX,
    ensures
        timer_left(timer_left(remaining, a), b) == timer_left(remaining, (a + b) as u64),
{
}

/// The color of a cell, as far as the palette mapping goes.
#[derive(Clone, Copy, Debug, PartialEq, Eq, Structural)]
pub enum CellColor {
    /// A 24-bit color.
    Rgb(u8, u8, u8),
    /// A color of the 256-color palette.
    Indexed(u8),
    /// A named color or the terminal's default, by number.
    Other(u8),
}

/// The colors of one cell.
#[derive(Clone, Copy, Debug, PartialEq, Eq, Structural)]
pub struct CellColors {
    pub fg: CellColor,
    pub bg: CellColor,
}

/// The colors of a screen, row after row, `width` cells to a row.
#[derive(Clone, Debug)]
pub struct Screen {
    pub width: u16,
    pub cells: Vec<CellColors>,
}

/// The step of the palette's color cube an 8-bit channel falls on.
pub open spec fn cube_level(c: u8) -> int {
    if c < 75 {
        0
    } else {
        (c - 35) / 40
    }
}

/// The 256-color palette entry of a 24-bit color, as colorsys's
/// `Ansi256::from(&Rgb)` computes it: the nearest step of the 6x6x6 color
/// cube on each channel.
pub open spec fn ansi256_code(r: u8, g: u8, b: u8) -> int {
    cube_level(r) * 36 + cube_level(g) * 6 + cube_level(b) + 16
}

/// A 24-bit color becomes its palette entry; other colors stay.
pub open spec fn palette_color(c: CellColor) -> CellColor {
    match c {
        CellColor::Rgb(r, g, b) => CellColor::Indexed(ansi256_code(r, g, b) as u8),
        _ => c,
    }
}

/// Cell `i` of a screen `width` cells wide lies in `area`.
pub open spec fn cell_in_area(i: int, width: int, area: Rect) -> bool {
    width > 0 && area.x <= i % width < area.x + area.width && area.y <= i / width < area.y
        + area.height
}

fn channel_level(c: u8) -> (r: u8)
    ensures
        r == cube_level(c),
        r <= 5,
{
    if c < 75 {
        0
    } else {
        (c - 35) / 40
    }
}

fn palette_of(c: CellColor) -> (r: CellColor)
    ensures
        r == palette_color(c),
{
    match c {
        CellColor::Rgb(r, g, b) => {
            let code = channel_level(r) * 36 + channel_level(g) * 6 + channel_level(b) + 16;
            CellColor::Indexed(code)
        },
        _ => c,
    }
}

/// What the 256-color effect draws: every cell of `area` gets the palette
/// entries of its 24-bit foreground and background colors; other colors,
/// and all cells outside `area`, stay as they were.
pub fn ansi256_colors(screen: &mut Screen, area: Rect)
    ensures
        final(screen).width == old(screen).width,
        final(screen).cells@.len() == old(screen).cells@.len(),
        forall|i: int|
            0 <= i < old(screen).cells@.len() ==> #[trigger] final(screen).cells@[i] == if cell_in_area(
                i,
                old(screen).width as int,
                area,
            ) {
                CellColors {
                    fg: palette_color(old(screen).cells@[i].fg),
                    bg: palette_color(old(screen).cells@[i].bg),
                }
            } else {
                old(screen).cells@[i]
            },
{
    let n = screen.cells.len();
    let w = screen.width as usize;
    let mut i: usize = 0;
    while i < n
        invariant
            screen.width == old(screen).width,
            w == screen.width as usize,
            n == old(screen).cells@.len(),
            screen.cells@.len() == n,
            i <= n,
            forall|k: int|
                0 <= k < n ==> #[trigger] screen.cells@[k] == if k < i && cell_in_area(
                    k,
                    w as int,
                    area,
                ) {
                    CellColors {
                        fg: palette_color(old(screen).cells@[k].fg),
                        bg: palette_color(old(screen).cells@[k].bg),
                    }
                } else {
                    old(screen).cells@[k]
                },
        decreases n - i,
    {
        if w > 0 {
            let x = i % w;
            let y = i / w;
            let ax = area.x as usize;
            let ay = area.y as usize;
            if ax <= x && x < ax + area.width as usize && ay <= y && y < ay + area.height as usize {
                let c = screen.cells[i];
                let mapped = CellColors { fg: palette_of(c.fg), bg: palette_of(c.bg) };
                screen.cells.set(i, mapped);
            }
        }
        i = i + 1;
    }
}

} // verus!
