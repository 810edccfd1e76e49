//! The sessions that are under way.

use crate::text;
use vstd::prelude::*;

verus! {

/// With so many sessions under way the old ones are forgotten before another
/// enters.
pub const MAX_SESSIONS: usize = 100;

/// A sweep forgets the sessions where there are more than this.
pub const SWEEP_ABOVE: usize = 10;

/// The handshakes of the sessions that are under way. No handshake is there
/// twice.
#[derive(Debug)]
pub struct ActiveSessions {
    ids: Vec<String>,
}

/// The sessions after another was let in.
pub open spec fn entered(sessions: Set<Seq<char>>, id: Seq<char>) -> Set<Seq<char>> {
    if sessions.len() >= MAX_SESSIONS {
        Set::<Seq<char>>::empty().insert(id)
    } else {
        sessions.insert(id)
    }
}

/// The sessions after one has come to its end.
pub open spec fn finished(sessions: Set<Seq<char>>, id: Seq<char>) -> Set<Seq<char>> {
    sessions.remove(id)
}

/// The sessions after a sweep, and how many were forgotten.
pub open spec fn swept(sessions: Set<Seq<char>>) -> (Set<Seq<char>>, Option<usize>) {
    if sessions.len() > SWEEP_ABOVE {
        (Set::empty(), Some(sessions.len() as usize))
    } else {
        (sessions, None)
    }
}

/// The position of a text in a list.
fn position(ids: &Vec<String>, id: &str) -> (r: Option<usize>)
    ensures
        match r {
            Some(i) => i < ids@.len() && ids@[i as int]@ == id@,
            None => !text::texts(ids@).contains(id@),
        },
{
    let mut i: usize = 0;
    while i < ids.len()
        invariant
            i <= ids@.len(),
            forall|j: int| 0 <= j < i ==> (#[trigger] ids@[j])@ != id@,
        decreases ids@.len() - i,
    {
        if text::same_text(ids[i].as_str(), id) {
            return Some(i);
        }
        i += 1;
    }
    proof {
        if text::texts(ids@).contains(id@) {
            let j = choose|j: int|
                0 <= j < text::texts(ids@).len() && text::texts(ids@)[j] == id@;
            assert(ids@[j]@ == id@);
        }
    }
    None
}

impl View for ActiveSessions {
    type V = Set<Seq<char>>;

    closed spec fn view(&self) -> Set<Seq<char>> {
        text::texts(self.ids@).to_set()
    }
}

impl ActiveSessions {
    /// No handshake is there twice, and there are not more than allowed.
    pub closed spec fn wf(&self) -> bool {
        &&& text::texts(self.ids@).no_duplicates()
        &&& self.ids@.len() <= MAX_SESSIONS
    }

    /// What holds of the sessions at any time.
    pub proof fn sessions_are_bounded(&self)
        requires
            self.wf(),
        ensures
            self@.finite(),
            self@.len() <= MAX_SESSIONS,
    {
        text::texts(self.ids@).unique_seq_to_set();
        vstd::seq_lib::seq_to_set_is_finite(text::texts(self.ids@));
    }

    /// No sessions.
    pub fn new() -> (r: Self)
        ensures
            r.wf(),
            r@ == Set::<Seq<char>>::empty(),
    {
        let r = ActiveSessions { ids: Vec::new() };
        assert(text::texts(r.ids@).to_set() =~= Set::<Seq<char>>::empty());
        r
    }

    /// How many sessions are under way.
    pub fn len(&self) -> (r: usize)
        requires
            self.wf(),
        ensures
            r == self@.len(),
    {
        proof {
            text::texts(self.ids@).unique_seq_to_set();
        }
        self.ids.len()
    }

    /// Whether the session is under way.
    pub fn contains(&self, id: &str) -> (r: bool)
        ensures
            r == self@.contains(id@),
    {
        let r = position(&self.ids, id).is_some();
        proof {
            if r {
                let i = choose|i: int| 0 <= i < self.ids@.len() && (#[trigger] self.ids@[i])@ == id@;
                assert(text::texts(self.ids@)[i] == id@);
            }
        }
        r
    }

    fn forget_all(&mut self)
        ensures
            final(self).wf(),
            final(self)@ == Set::<Seq<char>>::empty(),
            final(self).ids@.len() == 0,
    {
        self.ids.clear();
        assert(text::texts(self.ids@).to_set() =~= Set::<Seq<char>>::empty());
    }

    /// Lets a session in. Where there are too many, all others are forgotten.
    pub fn enter(&mut self, id: &str)
        requires
            old(self).wf(),
        ensures
            final(self).wf(),
            final(self)@ == (if old(self)@.len() >= MAX_SESSIONS {
                Set::<Seq<char>>::empty()
            } else {
                old(self)@
            }).insert(id@),
            final(self)@ == entered(old(self)@, id@),
    {
        if self.len() >= MAX_SESSIONS {
            self.forget_all();
        }
        proof {
            text::texts(old(self).ids@).unique_seq_to_set();
        }
        let ghost before = self.ids@;
        match position(&self.ids, id) {
            Some(i) => {
                proof {
                    assert(text::texts(before)[i as int] == id@);
                    assert(self@.insert(id@) =~= self@);
                }
            },
            None => {
                let ghost set = self@;
                self.ids.push(id.to_owned());
                proof {
                    let all = text::texts(self.ids@);
                    assert(all =~= text::texts(before).push(id@));
                    assert forall|s: Seq<char>| #[trigger] all.to_set().contains(s) == (set.contains(
                        s,
                    ) || s == id@) by {
                        if s == id@ {
                            assert(all[all.len() - 1] == s);
                        } else if set.contains(s) {
                            let k = choose|k: int|
                                0 <= k < text::texts(before).len() && text::texts(before)[k] == s;
                            assert(all[k] == s);
                        } else if all.contains(s) {
                            let k = choose|k: int| 0 <= k < all.len() && all[k] == s;
                            assert(text::texts(before)[k] == s);
                        }
                    }
                    assert(self@ =~= set.insert(id@));
                    assert forall|i: int, j: int| 0 <= i < all.len() && 0 <= j < all.len() && i
                        != j implies all[i] != all[j] by {
                        if i < before.len() && j < before.len() {
                            assert(text::texts(before)[i] != text::texts(before)[j]);
                        } else if i < before.len() {
                            assert(text::texts(before).contains(all[i]));
                        } else {
                            assert(text::texts(before).contains(all[j]));
                        }
                    }
                }
            },
        }
    }

    /// Forgets the session that has come to its end.
    pub fn finish(&mut self, id: &str)
        requires
            old(self).wf(),
        ensures
            final(self).wf(),
            final(self)@ == old(self)@.remove(id@),
            final(self)@ == finished(old(self)@, id@),
    {
        let ghost before = self.ids@;
        match position(&self.ids, id) {
            Some(i) => {
                self.ids.remove(i);
                proof {
                    let old_all = text::texts(before);
                    let all = text::texts(self.ids@);
                    assert(all =~= old_all.remove(i as int));
                    assert(old_all[i as int] == id@);
                    assert forall|s: Seq<char>| #[trigger] all.to_set().contains(s) == (
                    old_all.to_set().contains(s) && s != id@) by {
                        if all.contains(s) {
                            let k = choose|k: int| 0 <= k < all.len() && all[k] == s;
                            if k < i {
                                assert(old_all[k] == s);
                            } else {
                                assert(old_all[k + 1] == s);
                            }
                        }
                        if old_all.contains(s) && s != id@ {
                            let k = choose|k: int| 0 <= k < old_all.len() && old_all[k] == s;
                            if k < i {
                                assert(all[k] == s);
                            } else {
                                assert(all[k - 1] == s);
                            }
                        }
                    }
                    assert(self@ =~= old(self)@.remove(id@));
                }
            },
            None => {
                assert(self@ =~= old(self)@.remove(id@));
            },
        }
    }

    /// Forgets the sessions where there are suspiciously many; tells how many
    /// were forgotten.
    pub fn sweep(&mut self) -> (r: Option<usize>)
        requires
            old(self).wf(),
        ensures
            final(self).wf(),
            r == (if old(self)@.len() > SWEEP_ABOVE {
                Some(old(self)@.len() as usize)
            } else {
                None
            }),
            final(self)@ == (if old(self)@.len() > SWEEP_ABOVE {
                Set::<Seq<char>>::empty()
            } else {
                old(self)@
            }),
            (final(self)@, r) == swept(old(self)@),
    {
        let count: usize = self.len();
        if count > SWEEP_ABOVE {
            self.forget_all();
            Some(count)
        } else {
            None
        }
    }
}

/// A session that was let in is under way until it is finished.
pub proof fn entered_sessions_are_under_way(sessions: Set<Seq<char>>, id: Seq<char>)
    ensures
        sessions.insert(id).contains(id),
        !sessions.insert(id).remove(id).contains(id),
{
}

/// A session that is let in is under way. The others stay under way as long as
/// there were fewer than a hundred of them, and none does where there were as many.
pub proof fn sessions_are_let_in(sessions: Set<Seq<char>>, id: Seq<char>, other: Seq<char>)
    ensures
        entered(sessions, id).contains(id),
        sessions.len() < 100 ==> entered(sessions, id) == sessions.insert(id),
        sessions.len() >= 100 && other != id ==> !entered(sessions, id).contains(other),
{
}

/// A session that has come to its end is not under way, and every other stays as it
/// was. Letting a session in and finishing it leaves the others, where there is
/// room.
pub proof fn finished_sessions_are_forgotten(
    sessions: Set<Seq<char>>,
    id: Seq<char>,
    other: Seq<char>,
)
    ensures
        !finished(sessions, id).contains(id),
        other != id ==> finished(sessions, id).contains(other) == sessions.contains(other),
        sessions.len() < 100 && !sessions.contains(id) ==> finished(entered(sessions, id), id)
            == sessions,
{
    if !sessions.contains(id) {
        assert(sessions.insert(id).remove(id) =~= sessions);
    }
}

/// A sweep forgets all sessions, and tells how many they were, exactly where they
/// are more than ten.
pub proof fn sweeps_forget_many(sessions: Set<Seq<char>>)
    requires
        sessions.len() <= usize::MAX,
    ensures
        sessions.len() > 10 ==> swept(sessions).0 == Set::<Seq<char>>::empty() && (swept(
            sessions,
        ).1 matches Some(n) && n == sessions.len()),
        sessions.len() <= 10 ==> swept(sessions) == (sessions, None::<usize>),
{
}

} // verus!
