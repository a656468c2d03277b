//! Dropping repeated media key presses, so that a held key does not skip several tracks.
use vstd::prelude::*;

verus! {

/// A press of an action less than this long after the last accepted press of the same action
/// is dropped (300 ms, in nanoseconds).
pub const DEBOUNCE_WINDOW_NANOS: u64 = 300_000_000;

/// Time of the last accepted press of `action` in `presses`: that of its first entry.
pub open spec fn last_press_in(presses: Seq<(String, u64)>, action: Seq<char>) -> Option<u64>
    decreases presses.len(),
{
    if presses.len() == 0 {
        None
    } else if presses[0].0@ == action {
        Some(presses[0].1)
    } else {
        last_press_in(presses.drop_first(), action)
    }
}

/// Whether a press at `now` goes through, given the time of the last accepted press of the same
/// action. A clock reading before that press counts as no time having passed.
pub open spec fn press_accepted(last: Option<u64>, now: u64) -> bool {
    match last {
        None => true,
        Some(t) => now >= t + DEBOUNCE_WINDOW_NANOS,
    }
}

/// Whether no action has two entries in `presses`.
pub open spec fn distinct_actions(presses: Seq<(String, u64)>) -> bool {
    forall|i: int, j: int|
        0 <= i < j < presses.len() ==> #[trigger] presses[i].0@ != #[trigger] presses[j].0@
}

/// The time of the last accepted press of each media action. Times are nanoseconds on a
/// monotonic clock.
pub struct MediaKeyDebouncer {
    presses: Vec<(String, u64)>,
}

impl MediaKeyDebouncer {
    /// Each action has at most one entry.
    #[verifier::type_invariant]
    spec fn one_entry_per_action(self) -> bool {
        distinct_actions(self.presses@)
    }
}

proof fn lemma_last_press_update(s: Seq<(String, u64)>, i: int, entry: (String, u64), a: Seq<char>)
    requires
        0 <= i < s.len(),
        s[i].0@ == entry.0@,
        forall|j: int| 0 <= j < i ==> s[j].0@ != entry.0@,
    ensures
        last_press_in(s.update(i, entry), a) == if a == entry.0@ {
            Some(entry.1)
        } else {
            last_press_in(s, a)
        },
    decreases i,
{
    let t = s.update(i, entry);
    if i > 0 {
        assert forall|j: int| 0 <= j < i - 1 implies s.drop_first()[j].0@ != entry.0@ by {
            assert(s.drop_first()[j] == s[j + 1]);
        }
        lemma_last_press_update(s.drop_first(), i - 1, entry, a);
        assert(t.drop_first() =~= s.drop_first().update(i - 1, entry));
        assert(t[0] == s[0]);
    } else {
        assert(t[0] == entry);
        assert(t.drop_first() =~= s.drop_first());
    }
}

proof fn lemma_last_press_push(s: Seq<(String, u64)>, entry: (String, u64), a: Seq<char>)
    ensures
        last_press_in(s.push(entry), a) == if last_press_in(s, a) is Some {
            last_press_in(s, a)
        } else if a == entry.0@ {
            Some(entry.1)
        } else {
            None
        },
    decreases s.len(),
{
    let t = s.push(entry);
    if s.len() > 0 {
        lemma_last_press_push(s.drop_first(), entry, a);
        assert(t.drop_first() =~= s.drop_first().push(entry));
        assert(t[0] == s[0]);
        if s[0].0@ == a {
            assert(last_press_in(t, a) == Some(s[0].1));
        } else {
            assert(last_press_in(t, a) == last_press_in(s.drop_first().push(entry), a));
            assert(last_press_in(s, a) == last_press_in(s.drop_first(), a));
        }
    } else {
        assert(t.drop_first() =~= Seq::<(String, u64)>::empty());
        assert(t[0] == entry);
        assert(last_press_in(s, a) is None);
        assert(last_press_in(t.drop_first(), a) is None);
        if a == entry.0@ {
            assert(last_press_in(t, a) == Some(entry.1));
        } else {
            assert(last_press_in(t, a) is None);
        }
    }
}

impl MediaKeyDebouncer {
    /// Time of the last accepted press of `action`, if it was ever pressed.
    pub closed spec fn last_press(&self, action: Seq<char>) -> Option<u64> {
        last_press_in(self.presses@, action)
    }

    /// A debouncer that has seen no press.
    pub fn new() -> (d: Self)
        ensures
            forall|a: Seq<char>| #[trigger] d.last_press(a) is None,
    {
        MediaKeyDebouncer { presses: Vec::new() }
    }

    /// A press of `action` at `now`. Returns whether it goes through; if it does, it becomes the
    /// last accepted press of `action`. Presses of other actions are not affected.
    pub fn press(&mut self, action: &str, now: u64) -> (accepted: bool)
        ensures
            accepted == press_accepted(old(self).last_press(action@), now),
            forall|a: Seq<char>| #[trigger]
                final(self).last_press(a) == if accepted && a == action@ {
                    Some(now)
                } else {
                    old(self).last_press(a)
                },
    {
        proof {
            use_type_invariant(&*self);
        }
        let key = action.to_owned();
        let ghost s = self.presses@;
        let n = self.presses.len();
        let mut i: usize = 0;
        proof {
            assert(s.skip(0) =~= s);
        }
        while i < n
            invariant
                n == self.presses@.len(),
                s == self.presses@,
                s == old(self).presses@,
                distinct_actions(s),
                key@ == action@,
                0 <= i <= n,
                forall|j: int| 0 <= j < i ==> s[j].0@ != action@,
                last_press_in(s, action@) == last_press_in(s.skip(i as int), action@),
            decreases n - i,
        {
            if self.presses[i].0 == key {
                let last = self.presses[i].1;
                proof {
                    assert(s.skip(i as int)[0] == s[i as int]);
                    assert(s[i as int].0@ == action@);
                    assert(s.skip(i as int)[0].0@ == action@);
                    assert(last_press_in(s.skip(i as int), action@) == Some(last));
                    assert(last_press_in(s, action@) == Some(last));
                }
                if now < last || now - last < DEBOUNCE_WINDOW_NANOS {
                    return false;
                }
                let mut presses: Vec<(String, u64)> = Vec::new();
                std::mem::swap(&mut presses, &mut self.presses);
                presses.set(i, (key, now));
                proof {
                    let t = presses@;
                    assert forall|p: int, q: int| 0 <= p < q < t.len() implies #[trigger] t[p].0@
                        != #[trigger] t[q].0@ by {
                        assert(s[p].0@ != s[q].0@);
                    }
                }
                self.presses = presses;
                proof {
                    assert forall|a: Seq<char>| #[trigger]
                        last_press_in(self.presses@, a) == if a == action@ {
                            Some(now)
                        } else {
                            last_press_in(s, a)
                        } by {
                        lemma_last_press_update(s, i as int, (key, now), a);
                    }
                }
                return true;
            }
            proof {
                assert(s.skip(i as int).drop_first() =~= s.skip(i + 1));
            }
            i = i + 1;
        }
        proof {
            assert(s.skip(n as int) =~= Seq::<(String, u64)>::empty());
        }
        let mut presses: Vec<(String, u64)> = Vec::new();
        std::mem::swap(&mut presses, &mut self.presses);
        presses.push((key, now));
        proof {
            let t = presses@;
            assert forall|p: int, q: int| 0 <= p < q < t.len() implies #[trigger] t[p].0@
                != #[trigger] t[q].0@ by {
                if q < n {
                    assert(s[p].0@ != s[q].0@);
                } else {
                    assert(s[p].0@ != action@);
                }
            }
        }
        self.presses = presses;
        proof {
            assert forall|a: Seq<char>| #[trigger]
                last_press_in(self.presses@, a) == if a == action@ {
                    Some(now)
                } else {
                    last_press_in(s, a)
                } by {
                lemma_last_press_push(s, (key, now), a);
                if a != action@ && last_press_in(s, a) is None {
                }
            }
        }
        true
    }
}

/// A press less than the window after an accepted press of the same action is dropped, and one
/// at least the window after it goes through.
pub proof fn lemma_debounce_window(accepted_at: u64, now: u64)
    ensures
        accepted_at <= now < accepted_at + DEBOUNCE_WINDOW_NANOS ==> !press_accepted(
            Some(accepted_at),
            now,
        ),
        now >= accepted_at + DEBOUNCE_WINDOW_NANOS ==> press_accepted(Some(accepted_at), now),
        press_accepted(None, now),
{
}

} // verus!
