//! The floating emoji reactions shown over the game: every reaction received is shown once,
//! from the moment it is first seen, and disappears when its animation is over.
use vstd::prelude::*;

verus! {

/// How long a reaction floats, in milliseconds.
pub const ANIMATION_DURATION_MS: u64 = 3000;

/// How often shown reactions are checked for expiry, in milliseconds.
pub const CLEANUP_INTERVAL_MS: u32 = 500;

/// A reaction on screen.
#[derive(Debug, Clone)]
pub struct FloatingReaction {
    /// Reaction id
    pub id: u64,
    /// The emoji
    pub emoji: String,
    /// When it appeared, in milliseconds
    pub created_ms: u64,
}

/// Abstract value of a [`FloatingReaction`]: (id, emoji, appearance time).
pub type FloatingView = (u64, Seq<char>, u64);

impl View for FloatingReaction {
    type V = FloatingView;

    open spec fn view(&self) -> FloatingView {
        (self.id, self.emoji@, self.created_ms)
    }
}

/// A reaction that appeared at `created` is over at `now`: more than the animation time has
/// passed.
pub open spec fn is_expired(created: u64, now: u64) -> bool {
    now - created > ANIMATION_DURATION_MS
}

/// The reactions of `shown` still on screen at `now`, in order.
pub open spec fn still_shown(shown: Seq<FloatingView>, now: u64) -> Seq<FloatingView> {
    shown.filter(|e: FloatingView| !is_expired(e.2, now))
}

/// The ids seen and the reactions shown after taking in the received reactions `rs`
/// (id, emoji) at `now`: each id not seen before is shown, from `now`.
pub open spec fn absorb(
    seen: Seq<u64>,
    shown: Seq<FloatingView>,
    rs: Seq<(u64, Seq<char>)>,
    now: u64,
) -> (Seq<u64>, Seq<FloatingView>)
    decreases rs.len(),
{
    if rs.len() == 0 {
        (seen, shown)
    } else {
        let (p, s) = absorb(seen, shown, rs.drop_last(), now);
        let r = rs.last();
        if p.contains(r.0) {
            (p, s)
        } else {
            (p.push(r.0), s.push((r.0, r.1, now)))
        }
    }
}

/// The views of received reactions.
pub open spec fn received_view(rs: Seq<(u64, String)>) -> Seq<(u64, Seq<char>)> {
    rs.map_values(|r: (u64, String)| (r.0, r.1@))
}

/// The views of shown reactions.
pub open spec fn shown_view(v: Seq<FloatingReaction>) -> Seq<FloatingView> {
    v.map_values(|e: FloatingReaction| e@)
}

/// The reactions on screen and the ids of all reactions seen.
pub struct ReactionFeed {
    shown: Vec<FloatingReaction>,
    seen: Vec<u64>,
}

impl ReactionFeed {
    /// The reactions on screen, oldest first.
    pub closed spec fn shown(self) -> Seq<FloatingView> {
        shown_view(self.shown@)
    }

    /// The ids of every reaction seen, in the order seen.
    pub closed spec fn seen(self) -> Seq<u64> {
        self.seen@
    }

    /// Nothing seen, nothing shown.
    pub fn new() -> (r: Self)
        ensures
            r.shown() == Seq::<FloatingView>::empty(),
            r.seen() == Seq::<u64>::empty(),
    {
        let r = ReactionFeed { shown: Vec::new(), seen: Vec::new() };
        assert(r.shown() =~= Seq::<FloatingView>::empty());
        r
    }

    /// The reactions on screen.
    pub fn shown_reactions(&self) -> (r: &Vec<FloatingReaction>)
        ensures
            shown_view(r@) == self.shown(),
    {
        &self.shown
    }

    /// Takes in the reactions received so far at `now_ms`: the new ones appear, then the
    /// expired ones go. Returns the ids that appeared, and whether anything changed.
    pub fn receive(&mut self, reactions: &Vec<(u64, String)>, now_ms: u64) -> (r: (Vec<u64>, bool))
        ensures
            ({
                let (seen, shown) = absorb(old(self).seen(), old(self).shown(), received_view(reactions@), now_ms);
                &&& final(self).seen() == seen
                &&& final(self).shown() == still_shown(shown, now_ms)
                &&& r.0@ == seen.skip(old(self).seen().len() as int)
                &&& r.1 == (r.0@.len() > 0 || still_shown(shown, now_ms).len() != shown.len())
            }),
    {
        let ghost seen0 = self.seen@;
        let ghost shown0 = shown_view(self.shown@);
        let ghost rs = received_view(reactions@);
        let mut added: Vec<u64> = Vec::new();
        let n = reactions.len();
        let mut k: usize = 0;
        while k < n
            invariant
                n == reactions@.len(),
                rs == received_view(reactions@),
                k <= n,
                (self.seen@, shown_view(self.shown@)) == absorb(seen0, shown0, rs.take(k as int), now_ms),
                seen0.len() <= self.seen@.len(),
                self.seen@.take(seen0.len() as int) == seen0,
                added@ == self.seen@.skip(seen0.len() as int),
            decreases n - k,
        {
            let id = reactions[k].0;
            proof {
                assert(rs.take(k + 1).drop_last() =~= rs.take(k as int));
                assert(rs.take(k + 1).last() == (id, reactions@[k as int].1@));
            }
            if !contains_id(&self.seen, id) {
                let ghost before_seen = self.seen@;
                let ghost before_shown = shown_view(self.shown@);
                self.seen.push(id);
                added.push(id);
                self.shown.push(
                    FloatingReaction { id, emoji: reactions[k].1.clone(), created_ms: now_ms },
                );
                proof {
                    assert(shown_view(self.shown@) =~= before_shown.push(
                        (id, reactions@[k as int].1@, now_ms),
                    ));
                    assert(self.seen@.take(seen0.len() as int) =~= before_seen.take(
                        seen0.len() as int,
                    ));
                    assert(self.seen@.skip(seen0.len() as int) =~= before_seen.skip(
                        seen0.len() as int,
                    ).push(id));
                }
            }
            k = k + 1;
        }
        proof {
            assert(rs.take(n as int) =~= rs);
        }
        let ghost shown1 = shown_view(self.shown@);
        let removed = self.expire(now_ms);
        proof {
            assert(still_shown(shown1, now_ms).len() <= shown1.len()) by {
                shown1.lemma_filter_len(|e: FloatingView| !is_expired(e.2, now_ms));
            }
        }
        let changed = added.len() > 0 || removed;
        (added, changed)
    }

    /// Drops the reactions over at `now_ms`; whether any was dropped.
    pub fn expire(&mut self, now_ms: u64) -> (r: bool)
        ensures
            final(self).seen() == old(self).seen(),
            final(self).shown() == still_shown(old(self).shown(), now_ms),
            r == (final(self).shown().len() != old(self).shown().len()),
    {
        let ghost shown0 = shown_view(self.shown@);
        let ghost pred = |e: FloatingView| !is_expired(e.2, now_ms);
        let mut kept: Vec<FloatingReaction> = Vec::new();
        let n = self.shown.len();
        let mut k: usize = 0;
        while k < n
            invariant
                n == self.shown@.len(),
                shown0 == shown_view(self.shown@),
                k <= n,
                pred == (|e: FloatingView| !is_expired(e.2, now_ms)),
                shown_view(kept@) == shown0.take(k as int).filter(pred),
            decreases n - k,
        {
            let e = &self.shown[k];
            let expired = now_ms >= e.created_ms && now_ms - e.created_ms > ANIMATION_DURATION_MS;
            proof {
                assert(shown0.take(k + 1) =~= shown0.take(k as int).push(shown0[k as int]));
                shown0.take(k as int).lemma_filter_push(shown0[k as int], pred);
            }
            if !expired {
                let ghost before = shown_view(kept@);
                kept.push(FloatingReaction { id: e.id, emoji: e.emoji.clone(), created_ms: e.created_ms });
                proof {
                    assert(shown_view(kept@) =~= before.push(shown0[k as int]));
                }
            }
            k = k + 1;
        }
        proof {
            assert(shown0.take(n as int) =~= shown0);
        }
        let removed = kept.len() != self.shown.len();
        self.shown = kept;
        removed
    }
}

/// Whether `id` is among `ids`.
fn contains_id(ids: &Vec<u64>, id: u64) -> (r: bool)
    ensures
        r == ids@.contains(id),
{
    let n = ids.len();
    let mut i: usize = 0;
    while i < n
        invariant
            n == ids@.len(),
            i <= n,
            forall|j: int| 0 <= j < i ==> ids@[j] != id,
        decreases n - i,
    {
        if ids[i] == id {
            assert(ids@[i as int] == id);
            return true;
        }
        i = i + 1;
    }
    false
}

/// A reaction is shown at most once: taking in reactions keeps the ids seen free of repeats
/// and only adds to them, and each reaction that appears is one not seen before.
pub proof fn law_reaction_shown_once(
    seen: Seq<u64>,
    shown: Seq<FloatingView>,
    rs: Seq<(u64, Seq<char>)>,
    now: u64,
)
    requires
        seen.no_duplicates(),
    ensures
        absorb(seen, shown, rs, now).0.no_duplicates(),
        seen.len() <= absorb(seen, shown, rs, now).0.len(),
        shown.len() <= absorb(seen, shown, rs, now).1.len(),
        absorb(seen, shown, rs, now).0.take(seen.len() as int) == seen,
        absorb(seen, shown, rs, now).1.take(shown.len() as int) == shown,
        absorb(seen, shown, rs, now).1.len() - shown.len() == absorb(seen, shown, rs, now).0.len()
            - seen.len(),
    decreases rs.len(),
{
    if rs.len() > 0 {
        law_reaction_shown_once(seen, shown, rs.drop_last(), now);
        let (p, s) = absorb(seen, shown, rs.drop_last(), now);
        let r = rs.last();
        if !p.contains(r.0) {
            assert(p.push(r.0).take(seen.len() as int) =~= p.take(seen.len() as int));
            assert(s.push((r.0, r.1, now)).take(shown.len() as int) =~= s.take(shown.len() as int));
            assert forall|a: int, b: int| 0 <= a < b < p.push(r.0).len() implies p.push(r.0)[a]
                != p.push(r.0)[b] by {
                if b == p.len() {
                    assert(p[a] != r.0);
                }
            }
        }
    }
}

/// After taking in reactions, or after a cleanup, nothing on screen is over.
pub proof fn law_nothing_expired_shown(shown: Seq<FloatingView>, now: u64, i: int)
    requires
        0 <= i < still_shown(shown, now).len(),
    ensures
        !is_expired(still_shown(shown, now)[i].2, now),
{
    shown.lemma_filter_pred(|e: FloatingView| !is_expired(e.2, now), i);
}

} // verus!
