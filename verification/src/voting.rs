//! Counting votes and deciding the winners of a week.
use vstd::prelude::*;
use crate::events::{CoordinateVotedView, ImageVotedView, WallEventView};
use crate::log::{
    EventLog, coordinate_votes_for_week, image_votes, images_for_week,
    get_coordinate_votes_for_week, get_current_week_images, get_image_votes,
};
use crate::events::{ImageUploadedEvent, ImageVotedEvent};

verus! {

/// How many of `votes` are for plate `(x, y)`.
pub open spec fn count_coord(votes: Seq<CoordinateVotedView>, x: i32, y: i32) -> nat
    decreases votes.len(),
{
    if votes.len() == 0 {
        0
    } else {
        count_coord(votes.drop_last(), x, y) + if votes.last().x == x && votes.last().y == y {
            1nat
        } else {
            0nat
        }
    }
}

/// How many of `votes` are for the design with event id `id`.
pub open spec fn count_image(votes: Seq<ImageVotedView>, id: Seq<char>) -> nat
    decreases votes.len(),
{
    if votes.len() == 0 {
        0
    } else {
        count_image(votes.drop_last(), id) + if votes.last().image_event_id == id {
            1nat
        } else {
            0nat
        }
    }
}

/// Votes for plate `(x, y)` to be replaced in week `week`.
pub open spec fn coordinate_vote_count(log: Seq<WallEventView>, week: u32, x: i32, y: i32) -> nat {
    count_coord(coordinate_votes_for_week(log, week), x, y)
}

/// Votes for the design with event id `id`, over the whole history.
pub open spec fn image_vote_count(log: Seq<WallEventView>, id: Seq<char>) -> nat {
    count_image(image_votes(log), id)
}

/// Whether `id` is the event id of a design uploaded in week `week`.
pub open spec fn is_week_image(log: Seq<WallEventView>, week: u32, id: Seq<char>) -> bool {
    exists|k: int|
        0 <= k < images_for_week(log, week).len() && (#[trigger] images_for_week(log, week)[k]).event_id
            == id
}

/// Votes for one plate.
#[derive(Clone, Copy, Debug)]
pub struct CoordinateTally {
    pub x: i32,
    pub y: i32,
    pub votes: usize,
}

/// Votes for one design.
pub struct ImageTally {
    pub image_id: String,
    pub votes: usize,
}

/// What a tally of plate votes must be: one entry per plate that has
/// votes, none twice, each with its exact number of votes.
pub open spec fn is_coordinate_tally(t: Seq<CoordinateTally>, votes: Seq<CoordinateVotedView>) -> bool {
    &&& forall|k: int|
        0 <= k < t.len() ==> (#[trigger] t[k]).votes == count_coord(votes, t[k].x, t[k].y)
            && t[k].votes >= 1
    &&& distinct_plates(t)
    &&& forall|j: int| 0 <= j < votes.len() ==> has_plate(t, (#[trigger] votes[j]).x, votes[j].y)
}

/// Whether plate `(x, y)` has an entry in `t`.
pub open spec fn has_plate(t: Seq<CoordinateTally>, x: i32, y: i32) -> bool {
    exists|k: int| 0 <= k < t.len() && (#[trigger] t[k]).x == x && t[k].y == y
}

proof fn lemma_count_coord_step(votes: Seq<CoordinateVotedView>, i: int, x: i32, y: i32)
    requires
        0 <= i < votes.len(),
    ensures
        count_coord(votes.take(i + 1), x, y) == count_coord(votes.take(i), x, y) + if votes[i].x
            == x && votes[i].y == y {
            1nat
        } else {
            0nat
        },
{
    assert(votes.take(i + 1).drop_last() =~= votes.take(i));
}

proof fn lemma_count_coord_bound(votes: Seq<CoordinateVotedView>, x: i32, y: i32)
    ensures
        count_coord(votes, x, y) <= votes.len(),
    decreases votes.len(),
{
    if votes.len() > 0 {
        lemma_count_coord_bound(votes.drop_last(), x, y);
    }
}

/// A plate with votes is voted for by some vote in the list.
pub proof fn lemma_count_coord_witness(votes: Seq<CoordinateVotedView>, x: i32, y: i32)
    requires
        count_coord(votes, x, y) > 0,
    ensures
        exists|j: int| 0 <= j < votes.len() && (#[trigger] votes[j]).x == x && votes[j].y == y,
    decreases votes.len(),
{
    let last = votes.len() - 1;
    if votes[last].x == x && votes[last].y == y {
        assert(votes[last].x == x);
    } else {
        lemma_count_coord_witness(votes.drop_last(), x, y);
        let j = choose|j: int|
            0 <= j < votes.drop_last().len() && (#[trigger] votes.drop_last()[j]).x == x
                && votes.drop_last()[j].y == y;
        assert(votes[j] == votes.drop_last()[j]);
    }
}

/// Tallies the plate votes cast for week `week`, plates in the order of
/// their first vote.
pub fn tally_coordinate_votes(log: &EventLog, week: u32) -> (t: Vec<CoordinateTally>)
    ensures
        is_coordinate_tally(t@, coordinate_votes_for_week(log@, week)),
{
    let votes = get_coordinate_votes_for_week(log, week);
    let ghost vs = coordinate_votes_for_week(log@, week);
    let mut t: Vec<CoordinateTally> = Vec::new();
    let mut i: usize = 0;
    while i < votes.len()
        invariant
            votes@.map_values(|e: crate::events::CoordinateVotedEvent| e@) == vs,
            i <= vs.len(),
            t.len() <= i,
            is_coordinate_tally(t@, vs.take(i as int)),
        decreases votes.len() - i,
    {
        let vx = votes[i].x;
        let vy = votes[i].y;
        assert(vs[i as int].x == vx && vs[i as int].y == vy);
        let ghost old_t = t@;
        proof {
            assert forall|x: i32, y: i32|
                #![trigger count_coord(vs.take(i + 1), x, y)]
                count_coord(vs.take(i + 1), x, y) == count_coord(vs.take(i as int), x, y) + if vx
                    == x && vy == y {
                    1nat
                } else {
                    0nat
                } by {
                lemma_count_coord_step(vs, i as int, x, y);
            }
            lemma_count_coord_bound(vs.take(i as int), vx, vy);
        }
        let mut k: usize = 0;
        let mut found: bool = false;
        while k < t.len()
            invariant_except_break
                !found,
            invariant
                t@ == old_t,
                k <= t.len(),
                forall|q: int| 0 <= q < k ==> !((#[trigger] t@[q]).x == vx && t@[q].y == vy),
            ensures
                found ==> k < t.len() && t@[k as int].x == vx && t@[k as int].y == vy,
                !found ==> k == t.len(),
            decreases t.len() - k,
        {
            if t[k].x == vx && t[k].y == vy {
                found = true;
                break;
            }
            k = k + 1;
        }
        if found {
            assert(t@[k as int].x == vx && t@[k as int].y == vy);
            let entry = CoordinateTally { x: vx, y: vy, votes: t[k].votes + 1 };
            t.set(k, entry);
            proof {
                assert forall|j: int| 0 <= j < i + 1 implies has_plate(
                    t@,
                    (#[trigger] vs.take(i + 1)[j]).x,
                    vs.take(i + 1)[j].y,
                ) by {
                    if j < i {
                        assert(vs.take(i + 1)[j] == vs.take(i as int)[j]);
                        assert(has_plate(old_t, vs.take(i as int)[j].x, vs.take(i as int)[j].y));
                        let q = choose|q: int|
                            0 <= q < old_t.len() && (#[trigger] old_t[q]).x == vs.take(i as int)[j].x
                                && old_t[q].y == vs.take(i as int)[j].y;
                        assert(t@[q].x == old_t[q].x && t@[q].y == old_t[q].y);
                    } else {
                        assert(t@[k as int].x == vs.take(i + 1)[j].x);
                    }
                }
                assert forall|k1: int, k2: int|
                    0 <= k1 < k2 < t.len() implies !((#[trigger] t@[k1]).x == (#[trigger] t@[k2]).x
                    && t@[k1].y == t@[k2].y) by {
                    assert(old_t[k1].x == t@[k1].x && old_t[k1].y == t@[k1].y);
                    assert(old_t[k2].x == t@[k2].x && old_t[k2].y == t@[k2].y);
                }
            }
        } else {
            proof {
                assert(count_coord(vs.take(i as int), vx, vy) == 0) by {
                    if count_coord(vs.take(i as int), vx, vy) > 0 {
                        lemma_count_coord_witness(vs.take(i as int), vx, vy);
                        let j = choose|j: int|
                            0 <= j < vs.take(i as int).len() && (#[trigger] vs.take(
                                i as int,
                            )[j]).x == vx && vs.take(i as int)[j].y == vy;
                        assert(has_plate(old_t, vs.take(i as int)[j].x, vs.take(i as int)[j].y));
                        let q = choose|q: int|
                            0 <= q < old_t.len() && (#[trigger] old_t[q]).x == vx && old_t[q].y == vy;
                        assert(!(t@[q].x == vx && t@[q].y == vy));
                    }
                }
            }
            t.push(CoordinateTally { x: vx, y: vy, votes: 1 });
            proof {
                assert forall|j: int| 0 <= j < i + 1 implies has_plate(
                    t@,
                    (#[trigger] vs.take(i + 1)[j]).x,
                    vs.take(i + 1)[j].y,
                ) by {
                    if j < i {
                        assert(vs.take(i + 1)[j] == vs.take(i as int)[j]);
                        assert(has_plate(old_t, vs.take(i as int)[j].x, vs.take(i as int)[j].y));
                        let q = choose|q: int|
                            0 <= q < old_t.len() && (#[trigger] old_t[q]).x == vs.take(i as int)[j].x
                                && old_t[q].y == vs.take(i as int)[j].y;
                        assert(t@[q] == old_t[q]);
                    } else {
                        assert(t@[old_t.len() as int].x == vs.take(i + 1)[j].x);
                    }
                }
                assert forall|k1: int, k2: int|
                    0 <= k1 < k2 < t.len() implies !((#[trigger] t@[k1]).x == (#[trigger] t@[k2]).x
                    && t@[k1].y == t@[k2].y) by {
                    if k2 < old_t.len() {
                        assert(old_t[k1] == t@[k1] && old_t[k2] == t@[k2]);
                    } else {
                        assert(old_t[k1] == t@[k1]);
                    }
                }
            }
        }
        i = i + 1;
    }
    proof {
        assert(vs.take(vs.len() as int) =~= vs);
    }
    t
}


/// Entries ordered by votes, most first.
pub open spec fn sorted_by_votes_desc(t: Seq<CoordinateTally>) -> bool {
    forall|a: int, b: int| 0 <= a < b < t.len() ==> (#[trigger] t[a]).votes >= (#[trigger] t[b]).votes
}

/// No plate appears twice.
pub open spec fn distinct_plates(t: Seq<CoordinateTally>) -> bool {
    forall|k1: int, k2: int|
        0 <= k1 < k2 < t.len() ==> !((#[trigger] t[k1]).x == (#[trigger] t[k2]).x && t[k1].y == t[k2].y)
}

proof fn lemma_insert_keeps_sorted(s: Seq<CoordinateTally>, p: int, v: CoordinateTally)
    requires
        0 <= p <= s.len(),
        sorted_by_votes_desc(s),
        forall|q: int| 0 <= q < p ==> (#[trigger] s[q]).votes >= v.votes,
        forall|q: int| p <= q < s.len() ==> (#[trigger] s[q]).votes < v.votes,
    ensures
        sorted_by_votes_desc(s.insert(p, v)),
{
    let n = s.insert(p, v);
    assert forall|a: int, b: int| 0 <= a < b < n.len() implies (#[trigger] n[a]).votes >= (#[trigger] n[b]).votes by {
        if b < p {
            assert(n[a] == s[a] && n[b] == s[b]);
        } else if b == p {
            assert(n[a] == s[a]);
        } else if a < p {
            assert(n[a] == s[a] && n[b] == s[b - 1]);
        } else if a == p {
            assert(n[b] == s[b - 1]);
        } else {
            assert(n[a] == s[a - 1] && n[b] == s[b - 1]);
        }
    }
}

proof fn lemma_insert_keeps_distinct(s: Seq<CoordinateTally>, p: int, v: CoordinateTally)
    requires
        0 <= p <= s.len(),
        distinct_plates(s),
        forall|q: int| 0 <= q < s.len() ==> !((#[trigger] s[q]).x == v.x && s[q].y == v.y),
    ensures
        distinct_plates(s.insert(p, v)),
{
    let n = s.insert(p, v);
    assert forall|a: int, b: int| 0 <= a < b < n.len() implies !((#[trigger] n[a]).x == (#[trigger] n[b]).x && n[a].y == n[b].y) by {
        if b < p {
            assert(n[a] == s[a] && n[b] == s[b]);
        } else if b == p {
            assert(n[a] == s[a]);
        } else if a < p {
            assert(n[a] == s[a] && n[b] == s[b - 1]);
        } else if a == p {
            assert(n[b] == s[b - 1]);
        } else {
            assert(n[a] == s[a - 1] && n[b] == s[b - 1]);
        }
    }
}

proof fn lemma_insert_membership(
    s: Seq<CoordinateTally>,
    p: int,
    t: Seq<CoordinateTally>,
    i: int,
    pos: Seq<int>,
) -> (pos2: Seq<int>)
    requires
        0 <= p <= s.len(),
        0 <= i < t.len(),
        pos.len() == i,
        forall|j: int| 0 <= j < i ==> 0 <= #[trigger] pos[j] < s.len() && s[pos[j]] == t[j],
        forall|k: int| 0 <= k < s.len() ==> exists|j: int| 0 <= j < i && #[trigger] s[k] == t[j],
    ensures
        pos2.len() == i + 1,
        forall|j: int| 0 <= j < i + 1 ==> 0 <= #[trigger] pos2[j] < s.len() + 1 && s.insert(p, t[i])[pos2[j]] == t[j],
        forall|k: int| 0 <= k < s.len() + 1 ==> exists|j: int| 0 <= j < i + 1 && #[trigger] s.insert(p, t[i])[k] == t[j],
{
    let n = s.insert(p, t[i]);
    let pos2 = pos.map_values(|q: int| if q >= p { q + 1 } else { q }).push(p);
    assert forall|j: int| 0 <= j < i + 1 implies 0 <= #[trigger] pos2[j] < s.len() + 1 && n[pos2[j]] == t[j] by {
        if j < i {
            let q = pos[j];
            if q >= p {
                assert(pos2[j] == q + 1);
                assert(n[q + 1] == s[q]);
            } else {
                assert(pos2[j] == q);
                assert(n[q] == s[q]);
            }
        } else {
            assert(pos2[j] == p);
        }
    }
    assert forall|k: int| 0 <= k < s.len() + 1 implies exists|j: int| 0 <= j < i + 1 && #[trigger] n[k] == t[j] by {
        if k < p {
            assert(n[k] == s[k]);
            let j = choose|j: int| 0 <= j < i && #[trigger] s[k] == t[j];
        } else if k == p {
            assert(n[k] == t[i]);
        } else {
            assert(n[k] == s[k - 1]);
            let j = choose|j: int| 0 <= j < i && #[trigger] s[k - 1] == t[j];
        }
    }
    pos2
}

/// Whether `e` is an entry of `a`.
pub open spec fn has_entry(a: Seq<CoordinateTally>, e: CoordinateTally) -> bool {
    exists|k: int| 0 <= k < a.len() && a[k] == e
}

/// Every entry of `b` is also an entry of `a`.
pub open spec fn contains_all(a: Seq<CoordinateTally>, b: Seq<CoordinateTally>) -> bool {
    forall|j: int| 0 <= j < b.len() ==> has_entry(a, #[trigger] b[j])
}

proof fn lemma_new_plate_absent(s: Seq<CoordinateTally>, t: Seq<CoordinateTally>, i: int)
    requires
        0 <= i < t.len(),
        distinct_plates(t),
        forall|k: int| 0 <= k < s.len() ==> exists|j: int| 0 <= j < i && #[trigger] s[k] == t[j],
    ensures
        forall|q: int| 0 <= q < s.len() ==> !((#[trigger] s[q]).x == t[i].x && s[q].y == t[i].y),
{
    assert forall|q: int| 0 <= q < s.len() implies !((#[trigger] s[q]).x == t[i].x && s[q].y == t[i].y) by {
        let j = choose|j: int| 0 <= j < i && #[trigger] s[q] == t[j];
        assert(!(t[j].x == t[i].x && t[j].y == t[i].y));
    }
}

/// Orders a plate tally by votes, most first; plates with equal votes keep
/// their order.
#[verifier::rlimit(40)]
fn sort_by_votes_desc(t: &Vec<CoordinateTally>) -> (s: Vec<CoordinateTally>)
    requires
        distinct_plates(t@),
    ensures
        s.len() == t.len(),
        sorted_by_votes_desc(s@),
        distinct_plates(s@),
        contains_all(s@, t@),
        contains_all(t@, s@),
{
    let mut out: Vec<CoordinateTally> = Vec::new();
    let mut i: usize = 0;
    let ghost mut pos: Seq<int> = Seq::empty();
    while i < t.len()
        invariant
            i <= t.len(),
            distinct_plates(t@),
            out.len() == i,
            sorted_by_votes_desc(out@),
            distinct_plates(out@),
            pos.len() == i,
            forall|j: int| 0 <= j < i ==> 0 <= #[trigger] pos[j] < out.len() && out@[pos[j]] == t@[j],
            forall|k: int| 0 <= k < out.len() ==> exists|j: int| 0 <= j < i && #[trigger] out@[k] == t@[j],
        decreases t.len() - i,
    {
        let v = t[i];
        assert(v == t@[i as int]);
        let mut p: usize = 0;
        while p < out.len() && out[p].votes >= v.votes
            invariant
                p <= out.len(),
                forall|q: int| 0 <= q < p ==> (#[trigger] out@[q]).votes >= v.votes,
            decreases out.len() - p,
        {
            p = p + 1;
        }
        let ghost old_out = out@;
        proof {
            if p < old_out.len() {
                assert forall|q: int| p <= q < old_out.len() implies (#[trigger] old_out[q]).votes < v.votes by {
                    assert(old_out[p as int].votes >= old_out[q].votes);
                }
            }
            lemma_insert_keeps_sorted(old_out, p as int, v);
            lemma_new_plate_absent(old_out, t@, i as int);
            lemma_insert_keeps_distinct(old_out, p as int, v);
            pos = lemma_insert_membership(old_out, p as int, t@, i as int, pos);
        }
        out.insert(p, v);
        assert(out@ == old_out.insert(p as int, t@[i as int]));
        i = i + 1;
    }
    assert(i == t.len());
    proof {
        assert forall|j: int| 0 <= j < t@.len() implies has_entry(out@, #[trigger] t@[j]) by {
            assert(out@[pos[j]] == t@[j]);
        }
        assert forall|j: int| 0 <= j < out@.len() implies has_entry(t@, #[trigger] out@[j]) by {
            let k = choose|k: int| 0 <= k < i && #[trigger] out@[j] == t@[k];
            assert(t@[k] == out@[j]);
        }
    }
    out
}


proof fn lemma_tally_reordered(t: Seq<CoordinateTally>, s: Seq<CoordinateTally>, votes: Seq<CoordinateVotedView>)
    requires
        is_coordinate_tally(t, votes),
        distinct_plates(s),
        contains_all(s, t),
        contains_all(t, s),
    ensures
        is_coordinate_tally(s, votes),
{
    assert forall|k: int| 0 <= k < s.len() implies (#[trigger] s[k]).votes == count_coord(votes, s[k].x, s[k].y)
        && s[k].votes >= 1 by {
        assert(has_entry(t, s[k]));
        let j = choose|j: int| 0 <= j < t.len() && t[j] == s[k];
        assert(t[j].votes == count_coord(votes, t[j].x, t[j].y));
    }
    assert forall|j: int| 0 <= j < votes.len() implies has_plate(s, (#[trigger] votes[j]).x, votes[j].y) by {
        assert(has_plate(t, votes[j].x, votes[j].y));
        let q = choose|q: int| 0 <= q < t.len() && (#[trigger] t[q]).x == votes[j].x && t[q].y == votes[j].y;
        assert(has_entry(s, t[q]));
        let m = choose|m: int| 0 <= m < s.len() && s[m] == t[q];
        assert(s[m].x == votes[j].x);
    }
}

/// The plate votes for next week, one entry per plate with votes, most
/// votes first (the order among plates with equal votes is not specified).
pub fn coordinate_vote_summary(log: &EventLog) -> (s: Vec<CoordinateTally>)
    requires
        crate::log::current_week(log@) < u32::MAX,
    ensures
        is_coordinate_tally(
            s@,
            coordinate_votes_for_week(log@, (crate::log::current_week(log@) + 1) as u32),
        ),
        sorted_by_votes_desc(s@),
{
    let next_week = crate::log::get_current_week(log) + 1;
    let t = tally_coordinate_votes(log, next_week);
    let s = sort_by_votes_desc(&t);
    proof {
        lemma_tally_reordered(t@, s@, coordinate_votes_for_week(log@, next_week));
    }
    s
}

/// The first entry of `t` with the most votes, or `None` when `t` is empty.
pub fn most_voted_plate(t: &Vec<CoordinateTally>) -> (w: Option<CoordinateTally>)
    ensures
        w is None <==> t.len() == 0,
        w matches Some(e) ==> exists|k: int|
            0 <= k < t.len() && t@[k] == e && forall|q: int| 0 <= q < k ==> (#[trigger] t@[q]).votes
                < e.votes,
        w matches Some(e) ==> forall|q: int| 0 <= q < t.len() ==> (#[trigger] t@[q]).votes <= e.votes,
{
    if t.len() == 0 {
        return None;
    }
    let mut best: usize = 0;
    let mut i: usize = 1;
    while i < t.len()
        invariant
            1 <= i <= t.len(),
            best < i,
            forall|q: int| 0 <= q < best ==> (#[trigger] t@[q]).votes < t@[best as int].votes,
            forall|q: int| 0 <= q < i ==> (#[trigger] t@[q]).votes <= t@[best as int].votes,
        decreases t.len() - i,
    {
        if t[i].votes > t[best].votes {
            best = i;
        }
        i = i + 1;
    }
    Some(t[best])
}

/// A plate nobody voted for has no votes; every plate has at most as many
/// votes as the plate `most_voted_plate` picks from a tally.
pub proof fn lemma_most_voted_plate_wins(
    t: Seq<CoordinateTally>,
    votes: Seq<CoordinateVotedView>,
    w: CoordinateTally,
    x: i32,
    y: i32,
)
    requires
        is_coordinate_tally(t, votes),
        forall|q: int| 0 <= q < t.len() ==> (#[trigger] t[q]).votes <= w.votes,
    ensures
        count_coord(votes, x, y) <= w.votes,
{
    if count_coord(votes, x, y) > 0 {
        lemma_count_coord_witness(votes, x, y);
        let j = choose|j: int| 0 <= j < votes.len() && (#[trigger] votes[j]).x == x && votes[j].y == y;
        assert(has_plate(t, votes[j].x, votes[j].y));
        let q = choose|q: int| 0 <= q < t.len() && (#[trigger] t[q]).x == x && t[q].y == y;
        assert(t[q].votes == count_coord(votes, x, y));
    }
}


impl View for ImageTally {
    type V = (Seq<char>, usize);

    open spec fn view(&self) -> (Seq<char>, usize) {
        (self.image_id@, self.votes)
    }
}

/// Whether design `id` has an entry in `t`.
pub open spec fn has_image(t: Seq<(Seq<char>, usize)>, id: Seq<char>) -> bool {
    exists|k: int| 0 <= k < t.len() && (#[trigger] t[k]).0 == id
}

/// No design appears twice.
pub open spec fn distinct_images(t: Seq<(Seq<char>, usize)>) -> bool {
    forall|k1: int, k2: int| 0 <= k1 < k2 < t.len() ==> (#[trigger] t[k1]).0 != (#[trigger] t[k2]).0
}

/// What a tally of design votes for week `week` must be: one entry per
/// design of that week that has votes, none twice, each with its exact
/// number of votes.
pub open spec fn is_image_tally(
    t: Seq<(Seq<char>, usize)>,
    votes: Seq<ImageVotedView>,
    log: Seq<WallEventView>,
    week: u32,
) -> bool {
    &&& forall|k: int|
        0 <= k < t.len() ==> is_week_image(log, week, (#[trigger] t[k]).0) && t[k].1 == count_image(
            votes,
            t[k].0,
        ) && t[k].1 >= 1
    &&& distinct_images(t)
    &&& forall|j: int|
        0 <= j < votes.len() && is_week_image(log, week, (#[trigger] votes[j]).image_event_id)
            ==> has_image(t, votes[j].image_event_id)
}

proof fn lemma_count_image_step(votes: Seq<ImageVotedView>, i: int, id: Seq<char>)
    requires
        0 <= i < votes.len(),
    ensures
        count_image(votes.take(i + 1), id) == count_image(votes.take(i), id) + if votes[i].image_event_id
            == id {
            1nat
        } else {
            0nat
        },
{
    assert(votes.take(i + 1).drop_last() =~= votes.take(i));
}

proof fn lemma_count_image_bound(votes: Seq<ImageVotedView>, id: Seq<char>)
    ensures
        count_image(votes, id) <= votes.len(),
    decreases votes.len(),
{
    if votes.len() > 0 {
        lemma_count_image_bound(votes.drop_last(), id);
    }
}

/// A design with votes is named by some vote in the list.
pub proof fn lemma_count_image_witness(votes: Seq<ImageVotedView>, id: Seq<char>)
    requires
        count_image(votes, id) > 0,
    ensures
        exists|j: int| 0 <= j < votes.len() && (#[trigger] votes[j]).image_event_id == id,
    decreases votes.len(),
{
    let last = votes.len() - 1;
    if votes[last].image_event_id != id {
        lemma_count_image_witness(votes.drop_last(), id);
        let j = choose|j: int|
            0 <= j < votes.drop_last().len() && (#[trigger] votes.drop_last()[j]).image_event_id == id;
        assert(votes[j] == votes.drop_last()[j]);
    }
}

/// Whether one of `images` has event id `id`.
fn contains_image_id(images: &Vec<ImageUploadedEvent>, id: &String) -> (found: bool)
    ensures
        found == exists|k: int| 0 <= k < images.len() && (#[trigger] images@[k]).event_id@ == id@,
{
    let mut k: usize = 0;
    while k < images.len()
        invariant
            k <= images.len(),
            forall|q: int| 0 <= q < k ==> (#[trigger] images@[q]).event_id@ != id@,
        decreases images.len() - k,
    {
        if images[k].event_id == *id {
            return true;
        }
        k = k + 1;
    }
    false
}

/// Tallies the votes for the designs uploaded in week `week`, designs in
/// the order of their first vote.  Votes for other designs are not counted.
pub fn tally_image_votes(log: &EventLog, week: u32) -> (t: Vec<ImageTally>)
    ensures
        is_image_tally(t@.map_values(|e: ImageTally| e@), image_votes(log@), log@, week),
{
    let images = get_current_week_images(log, week);
    let votes = get_image_votes(log);
    let ghost vs = image_votes(log@);
    let ghost ims = images_for_week(log@, week);
    let mut t: Vec<ImageTally> = Vec::new();
    let mut i: usize = 0;
    while i < votes.len()
        invariant
            votes@.map_values(|e: ImageVotedEvent| e@) == vs,
            images@.map_values(|e: ImageUploadedEvent| e@) == ims,
            ims == images_for_week(log@, week),
            i <= vs.len(),
            t.len() <= i,
            is_image_tally(t@.map_values(|e: ImageTally| e@), vs.take(i as int), log@, week),
        decreases votes.len() - i,
    {
        let ghost tv = t@.map_values(|e: ImageTally| e@);
        let vid = &votes[i].image_event_id;
        assert(vs[i as int].image_event_id == vid@);
        proof {
            assert forall|id: Seq<char>|
                #![trigger count_image(vs.take(i + 1), id)]
                count_image(vs.take(i + 1), id) == count_image(vs.take(i as int), id) + if vid@
                    == id {
                    1nat
                } else {
                    0nat
                } by {
                lemma_count_image_step(vs, i as int, id);
            }
            lemma_count_image_bound(vs.take(i as int), vid@);
        }
        let eligible = contains_image_id(&images, vid);
        proof {
            if eligible {
                let k = choose|k: int| 0 <= k < images.len() && (#[trigger] images@[k]).event_id@ == vid@;
                assert(ims[k] == images@[k]@);
                assert(is_week_image(log@, week, vid@));
            } else {
                if is_week_image(log@, week, vid@) {
                    let k = choose|k: int| 0 <= k < ims.len() && (#[trigger] ims[k]).event_id == vid@;
                    assert(ims[k] == images@[k]@);
                }
                assert(!is_week_image(log@, week, vid@));
            }
        }
        if eligible {
            let mut k: usize = 0;
            let mut found: bool = false;
            while k < t.len()
                invariant_except_break
                    !found,
                invariant
                    t@.map_values(|e: ImageTally| e@) == tv,
                    k <= t.len(),
                    forall|q: int| 0 <= q < k ==> (#[trigger] tv[q]).0 != vid@,
                ensures
                    found ==> k < t.len() && tv[k as int].0 == vid@,
                    !found ==> k == t.len(),
                decreases t.len() - k,
            {
                if t[k].image_id == *vid {
                    found = true;
                    break;
                }
                k = k + 1;
            }
            if found {
                let entry = ImageTally { image_id: vid.clone(), votes: t[k].votes + 1 };
                t.set(k, entry);
                proof {
                    let nt = t@.map_values(|e: ImageTally| e@);
                    assert(nt == tv.update(k as int, (vid@, (tv[k as int].1 + 1) as usize)));
                    assert forall|j: int|
                        0 <= j < i + 1 && is_week_image(log@, week, (#[trigger] vs.take(i + 1)[j]).image_event_id)
                        implies has_image(nt, vs.take(i + 1)[j].image_event_id) by {
                        if j < i {
                            assert(vs.take(i + 1)[j] == vs.take(i as int)[j]);
                            assert(has_image(tv, vs.take(i as int)[j].image_event_id));
                            let q = choose|q: int|
                                0 <= q < tv.len() && (#[trigger] tv[q]).0 == vs.take(i as int)[j].image_event_id;
                            assert(nt[q].0 == tv[q].0);
                        } else {
                            assert(nt[k as int].0 == vs.take(i + 1)[j].image_event_id);
                        }
                    }
                    assert forall|k1: int, k2: int| 0 <= k1 < k2 < nt.len() implies (#[trigger] nt[k1]).0
                        != (#[trigger] nt[k2]).0 by {
                        assert(tv[k1].0 == nt[k1].0 && tv[k2].0 == nt[k2].0);
                    }
                    assert forall|q: int| 0 <= q < nt.len() implies is_week_image(log@, week, (#[trigger] nt[q]).0)
                        && nt[q].1 == count_image(vs.take(i + 1), nt[q].0) && nt[q].1 >= 1 by {
                        assert(nt[q].0 == tv[q].0);
                    }
                }
            } else {
                proof {
                    assert(count_image(vs.take(i as int), vid@) == 0) by {
                        if count_image(vs.take(i as int), vid@) > 0 {
                            lemma_count_image_witness(vs.take(i as int), vid@);
                            let j = choose|j: int|
                                0 <= j < vs.take(i as int).len() && (#[trigger] vs.take(i as int)[j]).image_event_id == vid@;
                            assert(has_image(tv, vs.take(i as int)[j].image_event_id));
                        }
                    }
                }
                t.push(ImageTally { image_id: vid.clone(), votes: 1 });
                proof {
                    let nt = t@.map_values(|e: ImageTally| e@);
                    assert(nt == tv.push((vid@, 1usize)));
                    assert forall|j: int|
                        0 <= j < i + 1 && is_week_image(log@, week, (#[trigger] vs.take(i + 1)[j]).image_event_id)
                        implies has_image(nt, vs.take(i + 1)[j].image_event_id) by {
                        if j < i {
                            assert(vs.take(i + 1)[j] == vs.take(i as int)[j]);
                            assert(has_image(tv, vs.take(i as int)[j].image_event_id));
                            let q = choose|q: int|
                                0 <= q < tv.len() && (#[trigger] tv[q]).0 == vs.take(i as int)[j].image_event_id;
                            assert(nt[q] == tv[q]);
                        } else {
                            assert(nt[tv.len() as int].0 == vs.take(i + 1)[j].image_event_id);
                        }
                    }
                    assert forall|k1: int, k2: int| 0 <= k1 < k2 < nt.len() implies (#[trigger] nt[k1]).0
                        != (#[trigger] nt[k2]).0 by {
                        if k2 < tv.len() {
                            assert(tv[k1] == nt[k1] && tv[k2] == nt[k2]);
                        } else {
                            assert(tv[k1] == nt[k1]);
                            assert(!has_image(tv, vid@));
                        }
                    }
                    assert forall|q: int| 0 <= q < nt.len() implies is_week_image(log@, week, (#[trigger] nt[q]).0)
                        && nt[q].1 == count_image(vs.take(i + 1), nt[q].0) && nt[q].1 >= 1 by {
                        if q < tv.len() {
                            assert(nt[q] == tv[q]);
                        }
                    }
                }
            }
        } else {
            proof {
                let nt = t@.map_values(|e: ImageTally| e@);
                assert(nt == tv);
                assert forall|j: int|
                    0 <= j < i + 1 && is_week_image(log@, week, (#[trigger] vs.take(i + 1)[j]).image_event_id)
                    implies has_image(nt, vs.take(i + 1)[j].image_event_id) by {
                    assert(j < i);
                    assert(vs.take(i + 1)[j] == vs.take(i as int)[j]);
                }
                assert forall|q: int| 0 <= q < nt.len() implies is_week_image(log@, week, (#[trigger] nt[q]).0)
                    && nt[q].1 == count_image(vs.take(i + 1), nt[q].0) && nt[q].1 >= 1 by {
                    assert(nt[q].0 != vid@);
                }
            }
        }
        i = i + 1;
    }
    proof {
        assert(vs.take(vs.len() as int) =~= vs);
    }
    t
}


/// The first design of `t` with the most votes, or `None` when `t` is empty.
pub fn most_voted_image(t: &Vec<ImageTally>) -> (w: Option<String>)
    ensures
        w is None <==> t.len() == 0,
        w matches Some(id) ==> exists|k: int|
            0 <= k < t.len() && t@[k].image_id@ == id@ && (forall|q: int|
                0 <= q < t.len() ==> (#[trigger] t@[q]).votes <= t@[k].votes) && (forall|q: int|
                0 <= q < k ==> (#[trigger] t@[q]).votes < t@[k].votes),
{
    if t.len() == 0 {
        return None;
    }
    let mut best: usize = 0;
    let mut i: usize = 1;
    while i < t.len()
        invariant
            1 <= i <= t.len(),
            best < i,
            forall|q: int| 0 <= q < best ==> (#[trigger] t@[q]).votes < t@[best as int].votes,
            forall|q: int| 0 <= q < i ==> (#[trigger] t@[q]).votes <= t@[best as int].votes,
        decreases t.len() - i,
    {
        if t[i].votes > t[best].votes {
            best = i;
        }
        i = i + 1;
    }
    Some(t[best].image_id.clone())
}

/// Votes for the design with event id `id`.
pub fn count_image_votes(log: &EventLog, id: &String) -> (n: usize)
    ensures
        n == image_vote_count(log@, id@),
{
    let votes = get_image_votes(log);
    let ghost vs = image_votes(log@);
    let mut n: usize = 0;
    let mut i: usize = 0;
    while i < votes.len()
        invariant
            votes@.map_values(|e: ImageVotedEvent| e@) == vs,
            i <= vs.len(),
            n == count_image(vs.take(i as int), id@),
        decreases votes.len() - i,
    {
        proof {
            lemma_count_image_step(vs, i as int, id@);
            lemma_count_image_bound(vs.take(i as int), id@);
        }
        assert(vs[i as int].image_event_id == votes@[i as int].image_event_id@);
        if votes[i].image_event_id == *id {
            n = n + 1;
        }
        i = i + 1;
    }
    proof {
        assert(vs.take(vs.len() as int) =~= vs);
    }
    n
}

/// Votes for plate `(x, y)` to be replaced in week `week`.
pub fn count_coordinate_votes(log: &EventLog, week: u32, x: i32, y: i32) -> (n: usize)
    ensures
        n == coordinate_vote_count(log@, week, x, y),
{
    let votes = get_coordinate_votes_for_week(log, week);
    let ghost vs = coordinate_votes_for_week(log@, week);
    let mut n: usize = 0;
    let mut i: usize = 0;
    while i < votes.len()
        invariant
            votes@.map_values(|e: crate::events::CoordinateVotedEvent| e@) == vs,
            i <= vs.len(),
            n == count_coord(vs.take(i as int), x, y),
        decreases votes.len() - i,
    {
        proof {
            lemma_count_coord_step(vs, i as int, x, y);
            lemma_count_coord_bound(vs.take(i as int), x, y);
        }
        assert(vs[i as int].x == votes@[i as int].x && vs[i as int].y == votes@[i as int].y);
        if votes[i].x == x && votes[i].y == y {
            n = n + 1;
        }
        i = i + 1;
    }
    proof {
        assert(vs.take(vs.len() as int) =~= vs);
    }
    n
}

} // verus!
