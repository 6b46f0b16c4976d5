//! Identity state: the installation's anonymous id, the optional user id,
//! and the set-once mapping from each user id to the anonymous id that was
//! active when that user was first identified.

use vstd::prelude::*;

verus! {

/// Map view of an association list of string pairs, later entries winning.
pub open spec fn links_of(entries: Seq<(Seq<char>, Seq<char>)>) -> Map<Seq<char>, Seq<char>>
    decreases entries.len(),
{
    if entries.len() == 0 {
        Map::empty()
    } else {
        links_of(entries.drop_last()).insert(entries.last().0, entries.last().1)
    }
}

/// What installing a user id reports: `None` when clearing, `Some(true)` when
/// the id is already linked, `Some(false)` when it is newly linked.
pub open spec fn link_outcome(links: Map<Seq<char>, Seq<char>>, uid: Option<Seq<char>>) -> Option<
    bool,
> {
    match uid {
        None => None,
        Some(u) => Some(links.dom().contains(u)),
    }
}

/// How installing a user id changes the link map: an id already present keeps
/// its original anonymous id; a new id is bound to the current one.
pub open spec fn link_step(
    links: Map<Seq<char>, Seq<char>>,
    anon: Seq<char>,
    uid: Option<Seq<char>>,
) -> Map<Seq<char>, Seq<char>> {
    match uid {
        None => links,
        Some(u) => if links.dom().contains(u) {
            links
        } else {
            links.insert(u, anon)
        },
    }
}

/// A key is in the link map exactly when some entry of the list carries it.
pub proof fn lemma_links_of_dom(entries: Seq<(Seq<char>, Seq<char>)>)
    ensures
        forall|k: Seq<char>| #[trigger]
            links_of(entries).dom().contains(k) <==> exists|i: int|
                0 <= i < entries.len() && entries[i].0 == k,
    decreases entries.len(),
{
    if entries.len() > 0 {
        lemma_links_of_dom(entries.drop_last());
        assert forall|k: Seq<char>| #[trigger] links_of(entries).dom().contains(k) implies exists|
            i: int,
        | 0 <= i < entries.len() && entries[i].0 == k by {
            if k != entries.last().0 {
                assert(links_of(entries.drop_last()).dom().contains(k));
                let i = choose|i: int|
                    0 <= i < entries.drop_last().len() && entries.drop_last()[i].0 == k;
                assert(entries[i].0 == k);
            } else {
                assert(entries[entries.len() - 1].0 == k);
            }
        }
        assert forall|k: Seq<char>|
            exists|i: int| 0 <= i < entries.len() && entries[i].0 == k implies #[trigger] links_of(
            entries,
        ).dom().contains(k) by {
            let i = choose|i: int| 0 <= i < entries.len() && entries[i].0 == k;
            if i < entries.len() - 1 {
                assert(entries.drop_last()[i].0 == k);
                assert(exists|j: int|
                    0 <= j < entries.drop_last().len() && entries.drop_last()[j].0 == k);
                assert(links_of(entries.drop_last()).dom().contains(k));
            } else {
                assert(entries.last().0 == k);
            }
        }
    }
}

/// Indexing the deep view of a vector of string pairs gives the pair of
/// views.
pub proof fn lemma_pairs_deep_view(v: Vec<(String, String)>)
    ensures
        v.deep_view().len() == v@.len(),
        forall|i: int| 0 <= i < v@.len() ==> v.deep_view()[i] == (v@[i].0@, v@[i].1@),
{
    assert forall|i: int| 0 <= i < v@.len() implies v.deep_view()[i] == (v@[i].0@, v@[i].1@) by {
        assert(v.deep_view()[i] == v@[i].deep_view());
    }
}

/// Law: installing a user id never unlinks one. Whatever is installed later,
/// and under whatever anonymous id, a linked user id stays linked.
pub proof fn lemma_link_step_monotone(
    links: Map<Seq<char>, Seq<char>>,
    u: Seq<char>,
    anon: Seq<char>,
    uid: Option<Seq<char>>,
)
    requires
        links.dom().contains(u),
    ensures
        link_step(links, anon, uid).dom().contains(u),
        link_step(links, anon, uid)[u] == links[u],
{
}

/// Law: a user id is reported "newly linked" at most once per link map
/// lineage. The first installation of `u` over a map that does not know it
/// reports `Some(false)`; installing the same `u` over any later map of the
/// lineage — in particular right after, whatever the anonymous id has become
/// in between — reports `Some(true)`, and the anonymous id `u` was first
/// bound to is kept.
pub proof fn lemma_user_id_linked_once(
    links: Map<Seq<char>, Seq<char>>,
    anon_then: Seq<char>,
    u: Seq<char>,
)
    requires
        !links.dom().contains(u),
    ensures
        link_outcome(links, Some(u)) == Some(false),
        link_outcome(link_step(links, anon_then, Some(u)), Some(u)) == Some(true),
        link_step(links, anon_then, Some(u))[u] == anon_then,
{
}

/// Identity state. `connected_ids` records, for each user id ever installed,
/// the anonymous id that was current when it was first installed; an entry is
/// never overwritten.
pub struct Config {
    /// The anonymous id of the installation; always present.
    pub anonymous_id: String,
    /// The set-once association from user ids to anonymous ids.
    pub connected_ids: Vec<(String, String)>,
    /// The user id currently installed, if any.
    pub user_id: Option<String>,
}

impl Config {
    /// The link map this state denotes.
    pub open spec fn links(&self) -> Map<Seq<char>, Seq<char>> {
        links_of(self.connected_ids.deep_view())
    }

    /// Each user id occurs at most once in the association list.
    pub open spec fn wf(&self) -> bool {
        forall|i: int, j: int|
            0 <= i < j < self.connected_ids.len() ==> (#[trigger] self.connected_ids[i].0@)
                != (#[trigger] self.connected_ids[j].0@)
    }

    pub fn new(anonymous_id: String) -> (r: Config)
        ensures
            r.anonymous_id == anonymous_id,
            r.connected_ids@.len() == 0,
            r.user_id is None,
            r.wf(),
    {
        Config { anonymous_id, connected_ids: Vec::new(), user_id: None }
    }

    /// The anonymous id of the installation.
    pub fn anonymous_id(&self) -> (r: &str)
        ensures
            r@ == self.anonymous_id@,
    {
        self.anonymous_id.as_str()
    }

    /// Overwrite the anonymous id. The link map is not touched.
    pub fn set_anonymous_id(&mut self, anonymous_id: String)
        ensures
            final(self).anonymous_id == anonymous_id,
            final(self).connected_ids == old(self).connected_ids,
            final(self).user_id == old(self).user_id,
    {
        self.anonymous_id = anonymous_id;
    }

    /// The user id currently installed, if any.
    pub fn user_id(&self) -> (r: Option<&str>)
        ensures
            match (r, &self.user_id) {
                (Some(a), Some(b)) => a@ == b@,
                (None, None) => true,
                _ => false,
            },
    {
        match &self.user_id {
            Some(s) => Some(s.as_str()),
            None => None,
        }
    }

    /// Install (or clear) the user id. Reports `None` when clearing,
    /// `Some(true)` when the id was already linked to an anonymous id, and
    /// `Some(false)` when it was linked now; only in the last case does the
    /// link map grow, binding the id to the current anonymous id.
    pub fn set_user_id(&mut self, user_id: Option<String>) -> (r: Option<bool>)
        requires
            old(self).wf(),
        ensures
            final(self).wf(),
            final(self).anonymous_id == old(self).anonymous_id,
            final(self).user_id.deep_view() == user_id.deep_view(),
            r == link_outcome(old(self).links(), user_id.deep_view()),
            final(self).links() == link_step(
                old(self).links(),
                old(self).anonymous_id@,
                user_id.deep_view(),
            ),
    {
        match user_id {
            None => {
                self.user_id = None;
                proof {
                    assert(self.connected_ids == old(self).connected_ids);
                    assert(self.wf());
                }
                None
            },
            Some(id) => {
                proof {
                    lemma_links_of_dom(self.connected_ids.deep_view());
                    lemma_pairs_deep_view(self.connected_ids);
                }
                let mut i: usize = 0;
                let mut found = false;
                while i < self.connected_ids.len()
                    invariant
                        0 <= i <= self.connected_ids.len(),
                        self == old(self),
                        !found ==> forall|j: int|
                            0 <= j < i ==> (#[trigger] old(self).connected_ids[j].0@) != id@,
                        found ==> exists|j: int|
                            0 <= j < old(self).connected_ids.len() && (
                            #[trigger] old(self).connected_ids[j].0@) == id@,
                    decreases self.connected_ids.len() - i,
                {
                    if self.connected_ids[i].0 == id {
                        found = true;
                    }
                    i += 1;
                }
                self.user_id = Some(id.clone());
                if found {
                    proof {
                        let j = choose|j: int|
                            0 <= j < old(self).connected_ids.len() && (
                            #[trigger] old(self).connected_ids[j].0@) == id@;
                        assert(self.connected_ids.deep_view()[j].0 == id@);
                        assert(self.links().dom().contains(id@));
                    }
                    Some(true)
                } else {
                    proof {
                        assert forall|j: int| 0 <= j < self.connected_ids.deep_view().len() implies (
                        #[trigger] self.connected_ids.deep_view()[j].0) != id@ by {
                            assert(self.connected_ids.deep_view()[j].0
                                == self.connected_ids[j].0@);
                        }
                        assert(!self.links().dom().contains(id@));
                    }
                    let ghost entries = self.connected_ids.deep_view();
                    let anon = self.anonymous_id.clone();
                    self.connected_ids.push((id, anon));
                    proof {
                        assert forall|a: int, b: int|
                            0 <= a < b < self.connected_ids.len() implies (
                        #[trigger] self.connected_ids[a].0@) != (
                        #[trigger] self.connected_ids[b].0@) by {
                            assert(self.connected_ids@ == old(self).connected_ids@.push(
                                (id, anon),
                            ));
                            if b + 1 < self.connected_ids.len() {
                                assert(self.connected_ids[a] == old(self).connected_ids[a]);
                                assert(self.connected_ids[b] == old(self).connected_ids[b]);
                                assert(old(self).connected_ids[a].0@ != old(
                                    self,
                                ).connected_ids[b].0@);
                            } else {
                                assert(self.connected_ids[a] == old(self).connected_ids[a]);
                                assert(self.connected_ids[b].0@ == id@);
                                assert(old(self).connected_ids[a].0@ != id@);
                            }
                        }
                        lemma_pairs_deep_view(self.connected_ids);
                        assert(self.connected_ids.deep_view().drop_last() =~= entries);
                        assert(self.links() =~= link_step(
                            links_of(entries),
                            old(self).anonymous_id@,
                            self.user_id.deep_view(),
                        ));
                    }
                    Some(false)
                }
            },
        }
    }
}

/// Relies on `uuid::Uuid::new_v4` and `Uuid`'s `Display`: a random version-4
/// UUID rendered in the hyphenated form, which is 36 characters long.
#[verifier::external_body]
fn fresh_anonymous_id() -> (r: String)
    ensures
        r@.len() == 36,
{
    uuid::Uuid::new_v4().to_string()
}

impl Default for Config {
    /// A fresh state: a newly generated anonymous id (a 36-character
    /// hyphenated UUID), no user id, no links.
    fn default() -> (r: Config)
        ensures
            r.anonymous_id@.len() == 36,
            r.connected_ids@.len() == 0,
            r.user_id is None,
            r.wf(),
    {
        Config::new(fresh_anonymous_id())
    }
}

} // verus!
