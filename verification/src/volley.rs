use vstd::prelude::*;

use crate::rocks::AsteroidSize;
use crate::session::Game;

verus! {

/// For one bullet and one asteroid position, which asteroid sizes placed at
/// that position would touch the bullet (the bullet lies within their
/// radius). Fragments appear where their parent was, so one entry serves an
/// asteroid and all its fragments.
#[derive(Clone, Copy, PartialEq, Eq, Structural, Debug)]
pub struct Contact {
    pub large: bool,
    pub medium: bool,
    pub small: bool,
}

impl Contact {
    pub open spec fn spec_touches(self, size: AsteroidSize) -> bool {
        match size {
            AsteroidSize::Large => self.large,
            AsteroidSize::Medium => self.medium,
            AsteroidSize::Small => self.small,
        }
    }

    pub fn touches(&self, size: AsteroidSize) -> (b: bool)
        ensures
            b == self.spec_touches(size),
    {
        match size {
            AsteroidSize::Large => self.large,
            AsteroidSize::Medium => self.medium,
            AsteroidSize::Small => self.small,
        }
    }
}

/// An asteroid of the field: its size, the index of the field position it
/// stands at (fragments keep their parent's), and an identity. Asteroids of
/// the field passed in keep their identity; fragments are numbered on from
/// the length of the field passed in, in the order they appear.
#[derive(Clone, Copy, PartialEq, Eq, Structural, Debug)]
pub struct Rock {
    pub size: AsteroidSize,
    pub origin: usize,
    pub id: usize,
}

/// One bullet (by its index in the list passed in) destroying one asteroid.
#[derive(Clone, Copy, PartialEq, Eq, Structural, Debug)]
pub struct Hit {
    pub bullet: usize,
    pub rock: Rock,
}

/// The outcome of a collision pass: the hits in the order they happened,
/// the surviving bullets (as indices into the list passed in) in their new
/// order, and the asteroid field in its new order.
pub struct Volley {
    pub hits: Vec<Hit>,
    pub bullets: Vec<usize>,
    pub rocks: Vec<Rock>,
}

/// The state of a collision pass between two bullets.
#[verifier::ext_equal]
pub struct VolleyState {
    pub bullets: Seq<usize>,
    pub rocks: Seq<Rock>,
    pub hits: Seq<Hit>,
    pub score: int,
    pub high_score: int,
    pub next_id: int,
}

/// Whether a bullet touches an asteroid.
pub open spec fn touching(contacts: Seq<Vec<Contact>>, bullet: usize, rock: Rock) -> bool {
    contacts[bullet as int]@[rock.origin as int].spec_touches(rock.size)
}

/// `j` is the first asteroid of `rocks` that the bullet touches.
pub open spec fn is_first_touch(
    contacts: Seq<Vec<Contact>>,
    bullet: usize,
    rocks: Seq<Rock>,
    j: int,
) -> bool {
    &&& 0 <= j < rocks.len()
    &&& touching(contacts, bullet, rocks[j])
    &&& forall|k: int| 0 <= k < j ==> !touching(contacts, bullet, #[trigger] rocks[k])
}

/// The first asteroid that the bullet touches, if any.
pub open spec fn first_touch(contacts: Seq<Vec<Contact>>, bullet: usize, rocks: Seq<Rock>) -> Option<
    int,
> {
    if exists|j: int| is_first_touch(contacts, bullet, rocks, j) {
        Some(choose|j: int| is_first_touch(contacts, bullet, rocks, j))
    } else {
        None
    }
}

/// `Vec::swap_remove`: the last element takes the place of the removed one.
pub open spec fn swap_removed<T>(s: Seq<T>, k: int) -> Seq<T> {
    s.update(k, s.last()).drop_last()
}

/// The fragments a destroyed asteroid leaves, numbered from `next_id`.
pub open spec fn fragments(rock: Rock, next_id: int) -> Seq<Rock> {
    match rock.size.spec_child() {
        Some(c) => seq![
            Rock { size: c, origin: rock.origin, id: next_id as usize },
            Rock { size: c, origin: rock.origin, id: (next_id + 1) as usize },
        ],
        None => seq![],
    }
}

pub open spec fn max_int(a: int, b: int) -> int {
    if a < b {
        b
    } else {
        a
    }
}

/// Resolving the bullet at position `i` of the bullet list: it destroys the
/// first asteroid it touches, if any. Bullet and asteroid are swap-removed,
/// the asteroid's points are added, the high score follows the score, and
/// the asteroid's fragments (if any) are appended to the field.
pub open spec fn volley_step(contacts: Seq<Vec<Contact>>, i: int, st: VolleyState) -> VolleyState {
    let bullet = st.bullets[i];
    match first_touch(contacts, bullet, st.rocks) {
        None => st,
        Some(j) => {
            let rock = st.rocks[j];
            let score = st.score + rock.size.spec_score();
            let kids = fragments(rock, st.next_id);
            VolleyState {
                bullets: swap_removed(st.bullets, i),
                rocks: swap_removed(st.rocks, j) + kids,
                hits: st.hits.push(Hit { bullet, rock }),
                score,
                high_score: max_int(st.high_score, score),
                next_id: st.next_id + kids.len(),
            }
        },
    }
}

/// The bullets at positions `i - 1` down to `0` are resolved in turn.
pub open spec fn volley_from(contacts: Seq<Vec<Contact>>, i: nat, st: VolleyState) -> VolleyState
    decreases i,
{
    if i == 0 {
        st
    } else {
        volley_from(contacts, (i - 1) as nat, volley_step(contacts, i - 1, st))
    }
}

/// The state a pass starts in: bullets `0 .. bullet_count` in order, the
/// field as given, no hits yet, fragments numbered from the field's length.
pub open spec fn volley_start(
    bullet_count: nat,
    rocks: Seq<Rock>,
    score: int,
    high_score: int,
) -> VolleyState {
    VolleyState {
        bullets: Seq::new(bullet_count, |i: int| i as usize),
        rocks,
        hits: Seq::empty(),
        score,
        high_score,
        next_id: rocks.len() as int,
    }
}

/// A whole collision pass over `bullet_count` bullets, last bullet first.
pub open spec fn volley(
    contacts: Seq<Vec<Contact>>,
    bullet_count: nat,
    rocks: Seq<Rock>,
    score: int,
    high_score: int,
) -> VolleyState {
    volley_from(contacts, bullet_count, volley_start(bullet_count, rocks, score, high_score))
}

proof fn lemma_first_touch_is(contacts: Seq<Vec<Contact>>, bullet: usize, rocks: Seq<Rock>, j: int)
    requires
        is_first_touch(contacts, bullet, rocks, j),
    ensures
        first_touch(contacts, bullet, rocks) == Some(j),
{
    let k = choose|k: int| is_first_touch(contacts, bullet, rocks, k);
    assert(is_first_touch(contacts, bullet, rocks, k));
    if k < j {
        assert(!touching(contacts, bullet, rocks[k]));
    } else if j < k {
        assert(!touching(contacts, bullet, rocks[j]));
    }
}

proof fn lemma_first_touch_none(contacts: Seq<Vec<Contact>>, bullet: usize, rocks: Seq<Rock>)
    requires
        forall|k: int| 0 <= k < rocks.len() ==> !touching(contacts, bullet, #[trigger] rocks[k]),
    ensures
        first_touch(contacts, bullet, rocks) is None,
{
    if exists|j: int| is_first_touch(contacts, bullet, rocks, j) {
        let j = choose|j: int| is_first_touch(contacts, bullet, rocks, j);
        assert(touching(contacts, bullet, rocks[j]));
    }
}

/// The first asteroid (by position in the field) that the bullet touches.
fn find_first_touch(contacts: &Vec<Vec<Contact>>, bullet: usize, rocks: &Vec<Rock>) -> (found:
    Option<usize>)
    requires
        bullet < contacts.len(),
        forall|r: int| 0 <= r < rocks.len() ==> (#[trigger] rocks[r]).origin < contacts[bullet as int]@.len(),
    ensures
        match found {
            Some(j) => first_touch(contacts@, bullet, rocks@) == Some(j as int),
            None => first_touch(contacts@, bullet, rocks@) is None,
        },
{
    let row = &contacts[bullet];
    let mut j: usize = 0;
    while j < rocks.len()
        invariant
            j <= rocks.len(),
            row@ == contacts@[bullet as int]@,
            forall|r: int| 0 <= r < rocks.len() ==> (#[trigger] rocks[r]).origin < row@.len(),
            forall|k: int| 0 <= k < j ==> !touching(contacts@, bullet, #[trigger] rocks@[k]),
        decreases rocks.len() - j,
    {
        let rock = rocks[j];
        if row[rock.origin].touches(rock.size) {
            proof {
                lemma_first_touch_is(contacts@, bullet, rocks@, j as int);
            }
            return Some(j);
        }
        j = j + 1;
    }
    proof {
        lemma_first_touch_none(contacts@, bullet, rocks@);
    }
    None
}

/// Scores and fragment numbers only grow during a pass, fragment numbers by
/// at most two per bullet.
proof fn lemma_volley_grows(contacts: Seq<Vec<Contact>>, i: nat, st: VolleyState)
    ensures
        volley_from(contacts, i, st).score >= st.score,
        st.next_id <= volley_from(contacts, i, st).next_id <= st.next_id + 2 * i,
    decreases i,
{
    if i > 0 {
        let nx = volley_step(contacts, i - 1, st);
        assert(nx.score >= st.score && st.next_id <= nx.next_id <= st.next_id + 2);
        lemma_volley_grows(contacts, (i - 1) as nat, nx);
    }
}

/// The pass state that the executable variables stand for.
pub open spec fn state_of(
    bullets: Seq<usize>,
    rocks: Seq<Rock>,
    hits: Seq<Hit>,
    score: u32,
    high_score: u32,
    next_id: usize,
) -> VolleyState {
    VolleyState {
        bullets,
        rocks,
        hits,
        score: score as int,
        high_score: high_score as int,
        next_id: next_id as int,
    }
}

impl Game {
    /// The collision pass of one frame. Bullets are taken from the last to
    /// the first; each destroys the first asteroid of the field it touches
    /// (see `volley_step`), which adds that asteroid's points to the score,
    /// lifts the high score along, and appends its fragments to the field.
    /// `contacts[b][p]` says which sizes touch bullet `b` at field position
    /// `p`; the field's asteroids stand at the positions their `origin`s name.
    pub fn handle_bullet_collisions(
        &mut self,
        bullet_count: usize,
        rocks: Vec<Rock>,
        contacts: &Vec<Vec<Contact>>,
    ) -> (v: Volley)
        requires
            contacts.len() == bullet_count,
            forall|b: int, r: int|
                0 <= b < contacts.len() && 0 <= r < rocks.len() ==> (#[trigger] rocks[r]).origin
                    < (#[trigger] contacts[b])@.len(),
            rocks.len() + 2 * bullet_count <= usize::MAX,
            volley(
                contacts@,
                bullet_count as nat,
                rocks@,
                old(self).score as int,
                old(self).high_score as int,
            ).score <= u32::MAX,
        ensures
            v.hits@ == volley(
                contacts@,
                bullet_count as nat,
                rocks@,
                old(self).score as int,
                old(self).high_score as int,
            ).hits,
            v.bullets@ == volley(
                contacts@,
                bullet_count as nat,
                rocks@,
                old(self).score as int,
                old(self).high_score as int,
            ).bullets,
            v.rocks@ == volley(
                contacts@,
                bullet_count as nat,
                rocks@,
                old(self).score as int,
                old(self).high_score as int,
            ).rocks,
            final(self).score == volley(
                contacts@,
                bullet_count as nat,
                rocks@,
                old(self).score as int,
                old(self).high_score as int,
            ).score,
            final(self).high_score == volley(
                contacts@,
                bullet_count as nat,
                rocks@,
                old(self).score as int,
                old(self).high_score as int,
            ).high_score,
            final(self).screen == old(self).screen,
            final(self).lives == old(self).lives,
            final(self).wave == old(self).wave,
            final(self).high_score >= old(self).high_score,
            old(self).wf() ==> final(self).wf(),
    {
        let ghost fin = volley(
            contacts@,
            bullet_count as nat,
            rocks@,
            self.score as int,
            self.high_score as int,
        );
        let ghost first_free = rocks.len();
        let ghost rocks0 = rocks@;
        let mut rocks = rocks;
        let mut bullets: Vec<usize> = Vec::new();
        let mut b: usize = 0;
        while b < bullet_count
            invariant
                b <= bullet_count,
                bullets@ == Seq::new(b as nat, |i: int| i as usize),
            decreases bullet_count - b,
        {
            bullets.push(b);
            proof {
                assert(bullets@ =~= Seq::new((b + 1) as nat, |i: int| i as usize));
            }
            b = b + 1;
        }
        let mut hits: Vec<Hit> = Vec::new();
        let mut next_id: usize = rocks.len();
        let mut i: usize = bullet_count;
        proof {
            assert(state_of(bullets@, rocks@, hits@, self.score, self.high_score, next_id)
                =~= volley_start(bullet_count as nat, rocks@, self.score as int, self.high_score as int));
        }
        while i > 0
            invariant
                contacts.len() == bullet_count,
                self.screen == old(self).screen,
                self.lives == old(self).lives,
                self.wave == old(self).wave,
                self.high_score >= old(self).high_score,
                i <= bullets.len(),
                forall|k: int| 0 <= k < bullets.len() ==> #[trigger] bullets[k] < bullet_count,
                forall|c: int, r: int|
                    0 <= c < contacts.len() && 0 <= r < rocks.len() ==> (#[trigger] rocks[r]).origin
                        < (#[trigger] contacts[c])@.len(),
                next_id + 2 * i <= first_free + 2 * bullet_count,
                first_free + 2 * bullet_count <= usize::MAX,
                fin.score <= u32::MAX,
                volley_from(
                    contacts@,
                    i as nat,
                    state_of(bullets@, rocks@, hits@, self.score, self.high_score, next_id),
                ) == fin,
            decreases i,
        {
            let ghost st = state_of(bullets@, rocks@, hits@, self.score, self.high_score, next_id);
            i = i - 1;
            let bullet = bullets[i];
            assert(bullet < contacts.len());
            assert(forall|r: int| 0 <= r < rocks.len() ==> (#[trigger] rocks[r]).origin < contacts[bullet as int]@.len());
            let ghost nx = volley_step(contacts@, i as int, st);
            match find_first_touch(contacts, bullet, &rocks) {
                None => {
                    assert(nx == st);
                },
                Some(j) => {
                    proof {
                        lemma_volley_grows(contacts@, i as nat, nx);
                    }
                    let rock = rocks[j];
                    bullets.swap_remove(i);
                    rocks.swap_remove(j);
                    self.score = self.score + rock.size.score();
                    if self.high_score < self.score {
                        self.high_score = self.score;
                    }
                    hits.push(Hit { bullet, rock });
                    match rock.size.child() {
                        Some(c) => {
                            rocks.push(Rock { size: c, origin: rock.origin, id: next_id });
                            rocks.push(Rock { size: c, origin: rock.origin, id: next_id + 1 });
                            next_id = next_id + 2;
                        },
                        None => {},
                    }
                    proof {
                        assert(bullets@ =~= nx.bullets);
                        assert(rocks@ =~= nx.rocks);
                        assert(hits@ =~= nx.hits);
                        assert(state_of(bullets@, rocks@, hits@, self.score, self.high_score, next_id) =~= nx);
                        assert forall|k: int| 0 <= k < bullets.len() implies #[trigger] bullets[k] < bullet_count by {
                            if k == i {
                                assert(bullets@[k] == st.bullets.last());
                            } else {
                                assert(bullets@[k] == st.bullets[k]);
                            }
                        }
                        assert forall|c: int, r: int|
                            0 <= c < contacts.len() && 0 <= r < rocks.len() implies (#[trigger] rocks[r]).origin
                                < (#[trigger] contacts[c])@.len() by {
                            let last = (st.rocks.len() - 1) as int;
                            if r < last {
                                if r == j {
                                    assert(rocks[r] == st.rocks[last]);
                                } else {
                                    assert(rocks[r] == st.rocks[r]);
                                }
                            } else {
                                assert(rocks[r].origin == rock.origin);
                            }
                        }
                    }
                },
            }
        }
        proof {
            if old(self).score <= old(self).high_score {
                lemma_volley_bookkeeping(
                    contacts@,
                    bullet_count as nat,
                    rocks0,
                    old(self).score as int,
                    old(self).high_score as int,
                );
            }
        }
        Volley { hits, bullets, rocks }
    }
}

/// Points scored by a sequence of hits.
pub open spec fn points(hits: Seq<Hit>) -> int
    decreases hits.len(),
{
    if hits.len() == 0 {
        0
    } else {
        points(hits.drop_last()) + hits.last().rock.size.spec_score()
    }
}

/// How many of the hits destroyed an asteroid that breaks into fragments.
pub open spec fn split_count(hits: Seq<Hit>) -> int
    decreases hits.len(),
{
    if hits.len() == 0 {
        0
    } else {
        split_count(hits.drop_last()) + if hits.last().rock.size.spec_child() is Some {
            1int
        } else {
            0int
        }
    }
}

proof fn lemma_push_sums(hits: Seq<Hit>, h: Hit)
    ensures
        points(hits.push(h)) == points(hits) + h.rock.size.spec_score(),
        split_count(hits.push(h)) == split_count(hits) + if h.rock.size.spec_child() is Some {
            1int
        } else {
            0int
        },
{
    assert(hits.push(h).drop_last() =~= hits);
}

/// The bookkeeping of a pass, from any state of it on: every hit uses up one
/// bullet; the score grows by exactly the points of the new hits; the field
/// loses one asteroid per hit and gains two fragments per hit on an asteroid
/// that splits; the high score ends as the larger of where it started and
/// the final score; earlier hits are kept; and every new hit is a bullet that
/// really touches the asteroid it destroys.
pub proof fn lemma_volley_accounting(contacts: Seq<Vec<Contact>>, i: nat, st: VolleyState)
    requires
        i <= st.bullets.len(),
    ensures
        ({
            let fin = volley_from(contacts, i, st);
            &&& fin.bullets.len() + fin.hits.len() == st.bullets.len() + st.hits.len()
            &&& fin.hits.len() <= st.hits.len() + i
            &&& fin.score == st.score + points(fin.hits) - points(st.hits)
            &&& fin.rocks.len() + fin.hits.len() == st.rocks.len() + st.hits.len() + 2 * (
            split_count(fin.hits) - split_count(st.hits))
            &&& st.score <= st.high_score ==> fin.high_score == max_int(st.high_score, fin.score)
            &&& st.hits.len() <= fin.hits.len()
            &&& forall|k: int| 0 <= k < st.hits.len() ==> fin.hits[k] == st.hits[k]
            &&& forall|k: int|
                st.hits.len() <= k < fin.hits.len() ==> touching(
                    contacts,
                    fin.hits[k].bullet,
                    #[trigger] fin.hits[k].rock,
                )
        }),
    decreases i,
{
    if i > 0 {
        let nx = volley_step(contacts, i - 1, st);
        let bullet = st.bullets[i - 1];
        match first_touch(contacts, bullet, st.rocks) {
            None => {},
            Some(j) => {
                let w = choose|w: int| is_first_touch(contacts, bullet, st.rocks, w);
                assert(is_first_touch(contacts, bullet, st.rocks, w));
                let h = Hit { bullet, rock: st.rocks[j] };
                lemma_push_sums(st.hits, h);
                assert(touching(contacts, h.bullet, h.rock));
                assert(nx.hits[st.hits.len() as int] == h);
            },
        }
        lemma_volley_accounting(contacts, (i - 1) as nat, nx);
        lemma_volley_grows(contacts, (i - 1) as nat, nx);
    }
}

/// The bookkeeping of a whole collision pass over `bullet_count` bullets:
/// bullets left plus hits make up all the bullets; the score rises by exactly the points of the
/// destroyed asteroids; the field shrinks by one per hit and grows by two
/// fragments per large or medium asteroid destroyed; the high score ends as
/// the larger of its old value and the new score; and every hit is a bullet
/// that touches the asteroid it destroys.
pub proof fn lemma_volley_bookkeeping(
    contacts: Seq<Vec<Contact>>,
    bullet_count: nat,
    rocks: Seq<Rock>,
    score: int,
    high_score: int,
)
    requires
        score <= high_score,
    ensures
        ({
            let fin = volley(contacts, bullet_count, rocks, score, high_score);
            &&& fin.bullets.len() + fin.hits.len() == bullet_count
            &&& fin.score == score + points(fin.hits)
            &&& fin.rocks.len() + fin.hits.len() == rocks.len() + 2 * split_count(fin.hits)
            &&& fin.high_score == max_int(high_score, fin.score)
            &&& forall|k: int|
                0 <= k < fin.hits.len() ==> touching(
                    contacts,
                    fin.hits[k].bullet,
                    #[trigger] fin.hits[k].rock,
                )
        }),
{
    let st = volley_start(bullet_count, rocks, score, high_score);
    lemma_volley_accounting(contacts, bullet_count, st);
}

/// The bullets (as indices into the list passed in) of a sequence of hits.
pub open spec fn hit_bullets(hits: Seq<Hit>) -> Seq<usize> {
    hits.map_values(|h: Hit| h.bullet)
}

proof fn lemma_swap_removed_multiset<T>(s: Seq<T>, k: int)
    requires
        0 <= k < s.len(),
    ensures
        swap_removed(s, k).to_multiset() =~= s.to_multiset().remove(s[k]),
{
    broadcast use vstd::seq_lib::group_to_multiset_ensures;
    broadcast use vstd::multiset::group_multiset_axioms;

    let t = s.update(k, s.last());
    vstd::seq_lib::to_multiset_update(s, k, s.last());
    assert(t.drop_last().push(t.last()) =~= t);
    assert(t.last() == s.last());
    assert(t.to_multiset() =~= t.drop_last().to_multiset().insert(s.last()));
    let m = s.to_multiset();
    let d = t.drop_last().to_multiset();
    assert(d.insert(s.last()) =~= m.insert(s.last()).remove(s[k]));
    assert forall|x: T| #[trigger] d.count(x) == m.remove(s[k]).count(x) by {
        assert(d.insert(s.last()).count(x) == m.insert(s.last()).remove(s[k]).count(x));
    }
}

/// Bullets are never invented or duplicated by a pass: from any state on,
/// the bullets still in flight together with the bullets of the hits stay
/// the same multiset.
pub proof fn lemma_volley_keeps_bullets(contacts: Seq<Vec<Contact>>, i: nat, st: VolleyState)
    requires
        i <= st.bullets.len(),
    ensures
        ({
            let fin = volley_from(contacts, i, st);
            fin.bullets.to_multiset().add(hit_bullets(fin.hits).to_multiset())
                =~= st.bullets.to_multiset().add(hit_bullets(st.hits).to_multiset())
        }),
    decreases i,
{
    broadcast use vstd::seq_lib::group_to_multiset_ensures;
    broadcast use vstd::multiset::group_multiset_axioms;

    if i > 0 {
        let nx = volley_step(contacts, i - 1, st);
        let bullet = st.bullets[i - 1];
        match first_touch(contacts, bullet, st.rocks) {
            None => {},
            Some(j) => {
                let h = Hit { bullet, rock: st.rocks[j] };
                lemma_swap_removed_multiset(st.bullets, i - 1);
                assert(hit_bullets(nx.hits) =~= hit_bullets(st.hits).push(bullet));
                assert(st.bullets.to_multiset().count(bullet) > 0) by {
                    assert(st.bullets.contains(bullet));
                }
                assert(nx.bullets.to_multiset().add(hit_bullets(nx.hits).to_multiset())
                    =~= st.bullets.to_multiset().add(hit_bullets(st.hits).to_multiset()));
            },
        }
        lemma_volley_keeps_bullets(contacts, (i - 1) as nat, nx);
    }
}

/// Over a whole pass, the bullets left in flight and the bullets that hit
/// something are together exactly the bullets `0 .. bullet_count`, each
/// once: no bullet destroys two asteroids, and no bullet both hits and flies
/// on.
pub proof fn lemma_each_bullet_hits_at_most_once(
    contacts: Seq<Vec<Contact>>,
    bullet_count: nat,
    rocks: Seq<Rock>,
    score: int,
    high_score: int,
)
    ensures
        ({
            let fin = volley(contacts, bullet_count, rocks, score, high_score);
            fin.bullets.to_multiset().add(hit_bullets(fin.hits).to_multiset())
                =~= Seq::new(bullet_count, |i: int| i as usize).to_multiset()
        }),
{
    broadcast use vstd::seq_lib::group_to_multiset_ensures;
    broadcast use vstd::multiset::group_multiset_axioms;

    let st = volley_start(bullet_count, rocks, score, high_score);
    lemma_volley_keeps_bullets(contacts, bullet_count, st);
    assert(hit_bullets(st.hits) =~= Seq::<usize>::empty());
}

proof fn lemma_points_bound(hits: Seq<Hit>)
    ensures
        0 <= points(hits) <= 100 * hits.len(),
    decreases hits.len(),
{
    if hits.len() > 0 {
        lemma_points_bound(hits.drop_last());
    }
}

/// A pass adds at most a hundred points per bullet (a small asteroid is the
/// most valuable), so a score at most `u32::MAX - 100 * bullet_count` cannot
/// overflow during it.
pub proof fn lemma_volley_score_bound(
    contacts: Seq<Vec<Contact>>,
    bullet_count: nat,
    rocks: Seq<Rock>,
    score: int,
    high_score: int,
)
    ensures
        score <= volley(contacts, bullet_count, rocks, score, high_score).score <= score + 100
            * bullet_count,
{
    let st = volley_start(bullet_count, rocks, score, high_score);
    lemma_volley_accounting(contacts, bullet_count, st);
    let fin = volley(contacts, bullet_count, rocks, score, high_score);
    lemma_points_bound(fin.hits);
    assert(points(st.hits) == 0);
}

/// An asteroid of a given size is touched exactly when the contact entry's
/// flag for that very size is set: a bullet within the medium radius but
/// outside the small one touches a medium asteroid and not a small one.
pub proof fn lemma_touches_reads_its_own_flag(c: Contact)
    ensures
        c.spec_touches(AsteroidSize::Large) == c.large,
        c.spec_touches(AsteroidSize::Medium) == c.medium,
        c.spec_touches(AsteroidSize::Small) == c.small,
{
}

/// Every hit of a pass is backed by the contact flag for the destroyed
/// asteroid's own size, at the position the asteroid stands at.
pub proof fn lemma_hits_need_their_own_flag(
    contacts: Seq<Vec<Contact>>,
    bullet_count: nat,
    rocks: Seq<Rock>,
    score: int,
    high_score: int,
)
    ensures
        forall|k: int|
            0 <= k < volley(contacts, bullet_count, rocks, score, high_score).hits.len() ==> {
                let h = #[trigger] volley(contacts, bullet_count, rocks, score, high_score).hits[k];
                let c = contacts[h.bullet as int]@[h.rock.origin as int];
                &&& h.rock.size == AsteroidSize::Large ==> c.large
                &&& h.rock.size == AsteroidSize::Medium ==> c.medium
                &&& h.rock.size == AsteroidSize::Small ==> c.small
            },
{
    let st = volley_start(bullet_count, rocks, score, high_score);
    lemma_volley_accounting(contacts, bullet_count, st);
}

proof fn lemma_untouched_steps(contacts: Seq<Vec<Contact>>, i: nat, st: VolleyState, n: nat)
    requires
        i <= n,
        st.bullets == Seq::new(n, |b: int| b as usize),
        forall|b: int, r: int|
            0 <= b < n && 0 <= r < st.rocks.len() ==> !(#[trigger] touching(contacts, b as usize, st.rocks[r])),
    ensures
        volley_from(contacts, i, st) == st,
    decreases i,
{
    if i > 0 {
        let bullet = st.bullets[i - 1];
        assert(bullet == (i - 1) as usize);
        assert forall|r: int| 0 <= r < st.rocks.len() implies !touching(contacts, bullet, #[trigger] st.rocks[r]) by {
            assert(!touching(contacts, (i - 1) as int as usize, st.rocks[r]));
        }
        lemma_first_touch_none(contacts, bullet, st.rocks);
        lemma_untouched_steps(contacts, (i - 1) as nat, st, n);
    }
}

/// A pass in which no bullet has the contact flag for the size of any
/// asteroid at that asteroid's position changes nothing: no hits, all
/// bullets fly on in their order, the field and the scores stay as they are.
pub proof fn lemma_untouched_field_is_left_alone(
    contacts: Seq<Vec<Contact>>,
    bullet_count: nat,
    rocks: Seq<Rock>,
    score: int,
    high_score: int,
)
    requires
        bullet_count <= usize::MAX,
        forall|b: int, r: int|
            #![trigger contacts[b], rocks[r]]
            0 <= b < bullet_count && 0 <= r < rocks.len() ==> {
                let c = contacts[b]@[rocks[r].origin as int];
                &&& rocks[r].size == AsteroidSize::Large ==> !c.large
                &&& rocks[r].size == AsteroidSize::Medium ==> !c.medium
                &&& rocks[r].size == AsteroidSize::Small ==> !c.small
            },
    ensures
        volley(contacts, bullet_count, rocks, score, high_score).hits.len() == 0,
        volley(contacts, bullet_count, rocks, score, high_score).bullets == Seq::new(
            bullet_count,
            |b: int| b as usize,
        ),
        volley(contacts, bullet_count, rocks, score, high_score).rocks == rocks,
        volley(contacts, bullet_count, rocks, score, high_score).score == score,
        volley(contacts, bullet_count, rocks, score, high_score).high_score == high_score,
{
    let st = volley_start(bullet_count, rocks, score, high_score);
    assert forall|b: int, r: int|
        0 <= b < bullet_count && 0 <= r < st.rocks.len() implies !(#[trigger] touching(contacts, b as usize, st.rocks[r])) by {
        assert(rocks[r] == st.rocks[r]);
        assert((b as usize) as int == b);
        assert(contacts[b] == contacts[(b as usize) as int]);
    }
    lemma_untouched_steps(contacts, bullet_count, st, bullet_count);
}

/// The last bullet is resolved first, against the field as given: when it
/// has the contact flag for the size of asteroid `j` at that asteroid's
/// position and for no asteroid before `j`, the pass's first hit is that
/// bullet destroying asteroid `j`.
pub proof fn lemma_last_bullet_takes_first_touched(
    contacts: Seq<Vec<Contact>>,
    bullet_count: nat,
    rocks: Seq<Rock>,
    score: int,
    high_score: int,
    j: int,
)
    requires
        1 <= bullet_count <= usize::MAX,
        0 <= j < rocks.len(),
        ({
            let c = contacts[bullet_count - 1]@[rocks[j].origin as int];
            &&& rocks[j].size == AsteroidSize::Large ==> c.large
            &&& rocks[j].size == AsteroidSize::Medium ==> c.medium
            &&& rocks[j].size == AsteroidSize::Small ==> c.small
        }),
        forall|k: int|
            #![trigger rocks[k]]
            0 <= k < j ==> {
                let c = contacts[bullet_count - 1]@[rocks[k].origin as int];
                &&& rocks[k].size == AsteroidSize::Large ==> !c.large
                &&& rocks[k].size == AsteroidSize::Medium ==> !c.medium
                &&& rocks[k].size == AsteroidSize::Small ==> !c.small
            },
    ensures
        volley(contacts, bullet_count, rocks, score, high_score).hits.len() >= 1,
        volley(contacts, bullet_count, rocks, score, high_score).hits[0] == (Hit {
            bullet: (bullet_count - 1) as usize,
            rock: rocks[j],
        }),
{
    let st = volley_start(bullet_count, rocks, score, high_score);
    let bullet = st.bullets[bullet_count - 1];
    assert(bullet == (bullet_count - 1) as usize);
    assert(contacts[bullet as int] == contacts[bullet_count - 1]);
    assert forall|k: int| 0 <= k < j implies !touching(contacts, bullet, #[trigger] rocks[k]) by {
        assert(rocks[k] == rocks[k]);
    }
    assert(touching(contacts, bullet, rocks[j]));
    assert(is_first_touch(contacts, bullet, st.rocks, j));
    lemma_first_touch_is(contacts, bullet, st.rocks, j);
    let nx = volley_step(contacts, bullet_count - 1, st);
    assert(nx.hits == seq![Hit { bullet, rock: rocks[j] }]);
    lemma_volley_accounting(contacts, (bullet_count - 1) as nat, nx);
}

} // verus!
