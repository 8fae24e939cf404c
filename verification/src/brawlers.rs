use vstd::prelude::*;
use crate::text::str_eq;

verus! {

/// A brawler row as the directory holds it.
#[derive(Debug)]
pub struct BrawlerEntity {
    pub id: i32,
    pub username: String,
    pub password: String,
    pub display_name: String,
    pub avatar_url: Option<String>,
}

/// The fields a registration supplies; the directory assigns the identity.
#[derive(Debug)]
pub struct RegisterBrawlerEntity {
    pub username: String,
    pub password: String,
    pub display_name: String,
}

/// A registration request as the boundary hands it in. The password
/// arrives already hashed by the credential collaborator.
#[derive(Debug)]
pub struct RegisterBrawlerModel {
    pub username: String,
    pub password: String,
    pub display_name: String,
}

impl RegisterBrawlerModel {
    pub fn to_entity(&self) -> (r: RegisterBrawlerEntity)
        ensures
            r.username@ == self.username@,
            r.password@ == self.password@,
            r.display_name@ == self.display_name@,
    {
        RegisterBrawlerEntity {
            username: self.username.clone(),
            password: self.password.clone(),
            display_name: self.display_name.clone(),
        }
    }
}

/// One crew member as the roster projection presents them.
#[derive(Debug)]
pub struct BrawlerModel {
    pub display_name: String,
    pub avatar_url: String,
    pub mission_success_count: u64,
    pub mission_joined_count: u64,
}

/// Why a directory operation failed.
#[derive(Clone, Copy, Debug, PartialEq, Eq, Structural)]
pub enum BrawlerError {
    /// No brawler carries the given identity or username.
    NotFound,
    /// The username is already registered.
    UsernameTaken,
    /// The identity space is exhausted.
    Unavailable,
}

/// The first brawler in `s` carrying `id`, if any.
pub open spec fn spec_find_brawler(s: Seq<BrawlerEntity>, id: i32) -> Option<BrawlerEntity>
    decreases s.len(),
{
    if s.len() == 0 {
        None
    } else if s[0].id == id {
        Some(s[0])
    } else {
        spec_find_brawler(s.drop_first(), id)
    }
}

/// The first brawler in `s` carrying the username, if any.
pub open spec fn spec_find_by_username(s: Seq<BrawlerEntity>, username: Seq<char>) -> Option<
    BrawlerEntity,
>
    decreases s.len(),
{
    if s.len() == 0 {
        None
    } else if s[0].username@ == username {
        Some(s[0])
    } else {
        spec_find_by_username(s.drop_first(), username)
    }
}

/// A found brawler always carries the id it was looked up under.
pub proof fn lemma_brawler_find_id(s: Seq<BrawlerEntity>, id: i32)
    ensures
        spec_find_brawler(s, id) matches Some(b) ==> b.id == id,
    decreases s.len(),
{
    if s.len() > 0 && s[0].id != id {
        lemma_brawler_find_id(s.drop_first(), id);
    }
}

proof fn lemma_find_brawler_none(s: Seq<BrawlerEntity>, id: i32)
    requires
        forall|k: int| 0 <= k < s.len() ==> (#[trigger] s[k]).id != id,
    ensures
        spec_find_brawler(s, id) is None,
    decreases s.len(),
{
    if s.len() > 0 {
        assert forall|k: int| 0 <= k < s.drop_first().len() implies (#[trigger] s.drop_first()[k]).id
            != id by {
            assert(s.drop_first()[k] == s[k + 1]);
        }
        lemma_find_brawler_none(s.drop_first(), id);
    }
}

proof fn lemma_find_brawler_push(s: Seq<BrawlerEntity>, b: BrawlerEntity, id: i32)
    requires
        spec_find_brawler(s, b.id) is None,
    ensures
        spec_find_brawler(s.push(b), id) == (if id == b.id {
            Some(b)
        } else {
            spec_find_brawler(s, id)
        }),
    decreases s.len(),
{
    let t = s.push(b);
    assert(t.len() == s.len() + 1);
    if s.len() == 0 {
        assert(t[0] == b);
        if id == b.id {
            assert(spec_find_brawler(t, id) == Some(b));
        } else {
            assert(t.drop_first() =~= Seq::<BrawlerEntity>::empty());
            assert(spec_find_brawler(t, id) is None);
        }
    } else {
        assert(t[0] == s[0]);
        assert(s[0].id != b.id);
        if id == s[0].id {
            assert(spec_find_brawler(t, id) == Some(s[0]));
            assert(spec_find_brawler(s, id) == Some(s[0]));
        } else {
            assert(t.drop_first() =~= s.drop_first().push(b));
            lemma_find_brawler_push(s.drop_first(), b, id);
            assert(spec_find_brawler(t, id) == spec_find_brawler(t.drop_first(), id));
            assert(spec_find_brawler(s, id) == spec_find_brawler(s.drop_first(), id));
        }
    }
}

/// The directory of registered brawlers: the brawlers table and the next
/// identity to hand out.
pub struct BrawlerDirectory {
    brawlers: Vec<BrawlerEntity>,
    next_id: i32,
}

impl BrawlerDirectory {
    pub closed spec fn spec_brawlers(self) -> Seq<BrawlerEntity> {
        self.brawlers@
    }

    /// The directory's invariant: identities are distinct and below the
    /// next one to hand out, and usernames are unique.
    pub closed spec fn wf(self) -> bool {
        &&& forall|i: int, j: int|
            0 <= i < j < self.brawlers@.len() ==> self.brawlers@[i].id != self.brawlers@[j].id
        &&& forall|i: int, j: int|
            0 <= i < j < self.brawlers@.len() ==> self.brawlers@[i].username@
                != self.brawlers@[j].username@
        &&& 1 <= self.next_id
        &&& forall|i: int|
            0 <= i < self.brawlers@.len() ==> 1 <= (#[trigger] self.brawlers@[i]).id < self.next_id
    }

    pub open spec fn spec_brawler(self, id: i32) -> Option<BrawlerEntity> {
        spec_find_brawler(self.spec_brawlers(), id)
    }

    pub open spec fn spec_by_username(self, username: Seq<char>) -> Option<BrawlerEntity> {
        spec_find_by_username(self.spec_brawlers(), username)
    }

    pub open spec fn spec_has_username(self, username: Seq<char>) -> bool {
        exists|i: int|
            0 <= i < self.spec_brawlers().len() && (#[trigger] self.spec_brawlers()[i]).username@
                == username
    }

    pub fn new() -> (d: Self)
        ensures
            d.wf(),
            d.spec_brawlers() == Seq::<BrawlerEntity>::empty(),
    {
        BrawlerDirectory { brawlers: Vec::new(), next_id: 1 }
    }

    /// Registers a brawler under a fresh identity with no avatar yet; a
    /// username that is already registered is refused.
    pub fn register(&mut self, entity: RegisterBrawlerEntity) -> (r: Result<i32, BrawlerError>)
        requires
            old(self).wf(),
        ensures
            final(self).wf(),
            match r {
                Ok(id) => !old(self).spec_has_username(entity.username@) && old(self).spec_brawler(
                    id,
                ) is None && final(self).spec_brawlers().len() == old(self).spec_brawlers().len()
                    + 1 && (final(self).spec_brawler(id) matches Some(b) && b.username@
                    == entity.username@ && b.password@ == entity.password@ && b.display_name@
                    == entity.display_name@ && b.avatar_url is None) && (forall|other: i32|
                    other != id ==> final(self).spec_brawler(other) == old(self).spec_brawler(
                        other,
                    )),
                Err(e) => final(self).spec_brawlers() == old(self).spec_brawlers() && ((e
                    == BrawlerError::UsernameTaken && old(self).spec_has_username(entity.username@))
                    || e == BrawlerError::Unavailable),
            },
    {
        let n = self.brawlers.len();
        let mut i: usize = 0;
        while i < n
            invariant
                old(self) == self,
                old(self).wf(),
                n == self.brawlers@.len(),
                i <= n,
                forall|k: int|
                    0 <= k < i ==> (#[trigger] self.brawlers@[k]).username@ != entity.username@,
            decreases n - i,
        {
            if str_eq(self.brawlers[i].username.as_str(), entity.username.as_str()) {
                proof {
                    assert(old(self).spec_brawlers()[i as int].username@ == entity.username@);
                }
                return Err(BrawlerError::UsernameTaken);
            }
            i = i + 1;
        }
        if self.next_id == i32::MAX {
            return Err(BrawlerError::Unavailable);
        }
        let id = self.next_id;
        self.next_id = self.next_id + 1;
        let b = BrawlerEntity {
            id,
            username: entity.username,
            password: entity.password,
            display_name: entity.display_name,
            avatar_url: None,
        };
        proof {
            let s = self.brawlers@;
            assert forall|k: int| 0 <= k < s.len() implies (#[trigger] s[k]).id != id by {}
            lemma_find_brawler_none(s, id);
            assert forall|other: i32| #![auto]
                spec_find_brawler(s.push(b), other) == (if other == id {
                    Some(b)
                } else {
                    spec_find_brawler(s, other)
                }) by {
                lemma_find_brawler_push(s, b, other);
            }
            assert forall|a: int, c: int|
                0 <= a < c < s.push(b).len() implies s.push(b)[a].id != s.push(b)[c].id by {
                if c < s.len() {
                    assert(s.push(b)[a] == s[a]);
                    assert(s.push(b)[c] == s[c]);
                } else {
                    assert(s.push(b)[c] == b);
                    assert(s.push(b)[a] == s[a]);
                }
            }
            assert forall|a: int, c: int|
                0 <= a < c < s.push(b).len() implies s.push(b)[a].username@
                != s.push(b)[c].username@ by {
                if c < s.len() {
                    assert(s.push(b)[a] == s[a]);
                    assert(s.push(b)[c] == s[c]);
                } else {
                    assert(s.push(b)[c] == b);
                    assert(s.push(b)[a] == s[a]);
                }
            }
        }
        self.brawlers.push(b);
        Ok(id)
    }

    /// How many brawlers are registered.
    pub fn len(&self) -> (n: usize)
        ensures
            n == self.spec_brawlers().len(),
    {
        self.brawlers.len()
    }

    /// Looks a brawler up by username, for login.
    pub fn find_by_username(&self, username: &str) -> (r: Result<&BrawlerEntity, BrawlerError>)
        ensures
            match r {
                Ok(b) => self.spec_by_username(username@) == Some(*b),
                Err(e) => e == BrawlerError::NotFound && self.spec_by_username(username@) is None,
            },
    {
        let n = self.brawlers.len();
        let mut i: usize = 0;
        proof {
            assert(self.brawlers@.skip(0) =~= self.brawlers@);
        }
        while i < n
            invariant
                n == self.brawlers@.len(),
                i <= n,
                spec_find_by_username(self.brawlers@.skip(i as int), username@)
                    == spec_find_by_username(self.brawlers@, username@),
            decreases n - i,
        {
            if str_eq(self.brawlers[i].username.as_str(), username) {
                proof {
                    assert(self.brawlers@.skip(i as int)[0] == self.brawlers@[i as int]);
                }
                return Ok(&self.brawlers[i]);
            }
            proof {
                assert(self.brawlers@.skip(i as int)[0] == self.brawlers@[i as int]);
                assert(self.brawlers@.skip(i as int).drop_first() =~= self.brawlers@.skip(
                    i as int + 1,
                ));
            }
            i = i + 1;
        }
        proof {
            assert(self.brawlers@.skip(n as int) =~= Seq::<BrawlerEntity>::empty());
        }
        Err(BrawlerError::NotFound)
    }

    /// Looks a brawler up by identity.
    pub fn get_brawler(&self, id: i32) -> (r: Option<&BrawlerEntity>)
        ensures
            match r {
                Some(b) => self.spec_brawler(id) == Some(*b),
                None => self.spec_brawler(id) is None,
            },
    {
        let n = self.brawlers.len();
        let mut i: usize = 0;
        proof {
            assert(self.brawlers@.skip(0) =~= self.brawlers@);
        }
        while i < n
            invariant
                n == self.brawlers@.len(),
                i <= n,
                spec_find_brawler(self.brawlers@.skip(i as int), id) == spec_find_brawler(
                    self.brawlers@,
                    id,
                ),
            decreases n - i,
        {
            if self.brawlers[i].id == id {
                proof {
                    assert(self.brawlers@.skip(i as int)[0] == self.brawlers@[i as int]);
                }
                return Some(&self.brawlers[i]);
            }
            proof {
                assert(self.brawlers@.skip(i as int)[0] == self.brawlers@[i as int]);
                assert(self.brawlers@.skip(i as int).drop_first() =~= self.brawlers@.skip(
                    i as int + 1,
                ));
            }
            i = i + 1;
        }
        proof {
            assert(self.brawlers@.skip(n as int) =~= Seq::<BrawlerEntity>::empty());
        }
        None
    }

    /// Records a freshly stored avatar URL on a brawler.
    pub fn set_avatar(&mut self, id: i32, url: String) -> (r: Result<(), BrawlerError>)
        requires
            old(self).wf(),
        ensures
            final(self).wf(),
            match r {
                Ok(_) => old(self).spec_brawler(id) is Some && final(self).spec_brawlers().len()
                    == old(self).spec_brawlers().len() && (final(self).spec_brawler(id)
                    matches Some(b) && old(self).spec_brawler(id) matches Some(b0) && b.id == b0.id
                    && b.username@ == b0.username@ && b.password@ == b0.password@
                    && b.display_name@ == b0.display_name@ && (b.avatar_url matches Some(u) && u@
                    == url@)) && (forall|other: i32|
                    other != id ==> final(self).spec_brawler(other) == old(self).spec_brawler(
                        other,
                    )),
                Err(e) => e == BrawlerError::NotFound && old(self).spec_brawler(id) is None && final(self).spec_brawlers() == old(self).spec_brawlers(),
            },
    {
        let n = self.brawlers.len();
        let mut i: usize = 0;
        proof {
            assert(self.brawlers@.skip(0) =~= self.brawlers@);
        }
        while i < n
            invariant
                old(self) == self,
                old(self).wf(),
                n == self.brawlers@.len(),
                i <= n,
                spec_find_brawler(self.brawlers@.skip(i as int), id) == spec_find_brawler(
                    self.brawlers@,
                    id,
                ),
            decreases n - i,
        {
            if self.brawlers[i].id == id {
                proof {
                    assert(self.brawlers@.skip(i as int)[0] == self.brawlers@[i as int]);
                }
                let ghost s = self.brawlers@;
                let b0 = self.brawlers.remove(i);
                let b1 = BrawlerEntity { avatar_url: Some(url), ..b0 };
                self.brawlers.insert(i, b1);
                proof {
                    assert(self.brawlers@ =~= s.update(i as int, b1));
                    let t = s.update(i as int, b1);
                    assert forall|k: int| 0 <= k < s.len() implies (#[trigger] t[k]).id == s[k].id
                        && t[k].username@ == s[k].username@ by {
                        if k != i {
                            assert(t[k] == s[k]);
                        }
                    }
                    assert forall|a: int, c: int| 0 <= a < c < t.len() implies t[a].id != t[c].id
                        && t[a].username@ != t[c].username@ by {
                        assert(t[a].id == s[a].id && t[c].id == s[c].id);
                        assert(t[a].username@ == s[a].username@ && t[c].username@
                            == s[c].username@);
                    }
                    lemma_find_brawler_update(s, i as int, b1);
                }
                return Ok(());
            }
            proof {
                assert(self.brawlers@.skip(i as int)[0] == self.brawlers@[i as int]);
                assert(self.brawlers@.skip(i as int).drop_first() =~= self.brawlers@.skip(
                    i as int + 1,
                ));
            }
            i = i + 1;
        }
        proof {
            assert(self.brawlers@.skip(n as int) =~= Seq::<BrawlerEntity>::empty());
        }
        Err(BrawlerError::NotFound)
    }
}

/// Looking a brawler up after updating a slot in place, keeping the id.
proof fn lemma_find_brawler_update(s: Seq<BrawlerEntity>, i: int, b2: BrawlerEntity)
    requires
        0 <= i < s.len(),
        forall|a: int, c: int| 0 <= a < c < s.len() ==> s[a].id != s[c].id,
        s[i].id == b2.id,
    ensures
        forall|id: i32| #![auto]
            spec_find_brawler(s.update(i, b2), id) == (if id == b2.id {
                Some(b2)
            } else {
                spec_find_brawler(s, id)
            }),
    decreases s.len(),
{
    assert forall|id: i32| #![auto]
        spec_find_brawler(s.update(i, b2), id) == (if id == b2.id {
            Some(b2)
        } else {
            spec_find_brawler(s, id)
        }) by {
        lemma_find_brawler_update_one(s, i, b2, id);
    }
}

proof fn lemma_find_brawler_update_one(s: Seq<BrawlerEntity>, i: int, b2: BrawlerEntity, id: i32)
    requires
        0 <= i < s.len(),
        forall|a: int, c: int| 0 <= a < c < s.len() ==> s[a].id != s[c].id,
        s[i].id == b2.id,
    ensures
        spec_find_brawler(s.update(i, b2), id) == (if id == b2.id {
            Some(b2)
        } else {
            spec_find_brawler(s, id)
        }),
    decreases s.len(),
{
    let t = s.update(i, b2);
    if i == 0 {
        assert(t[0] == b2);
        if id != b2.id {
            assert(t.drop_first() =~= s.drop_first());
        }
    } else {
        assert(t[0] == s[0]);
        assert(s[0].id != s[i].id);
        if id != s[0].id {
            assert(t.drop_first() =~= s.drop_first().update(i - 1, b2));
            assert forall|a: int, c: int|
                0 <= a < c < s.drop_first().len() implies s.drop_first()[a].id
                != s.drop_first()[c].id by {
                assert(s.drop_first()[a] == s[a + 1]);
                assert(s.drop_first()[c] == s[c + 1]);
            }
            assert(s.drop_first()[i - 1] == s[i]);
            lemma_find_brawler_update_one(s.drop_first(), i - 1, b2, id);
        }
    }
}

} // verus!
