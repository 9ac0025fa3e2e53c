//! The store interface the handlers decide against: commands, replies, and
//! an in-memory reference store that realises the intended semantics of the
//! relational store (serial ids, lookup, overwrite and removal by id).
use vstd::prelude::*;
use crate::User;
use crate::UserModel;

verus! {

/// One operation against the user store.
pub enum StoreCommand {
    /// Insert a row; the store assigns the id.
    Insert { name: String, email: String },
    /// Select the row with the given id.
    FetchOne { id: i32 },
    /// Select all rows.
    FetchAll,
    /// Overwrite name and email of the row with the given id.
    Update { id: i32, name: String, email: String },
    /// Delete the row with the given id.
    Delete { id: i32 },
}

/// Mathematical model of a store command.
#[verifier::ext_equal]
pub enum CommandModel {
    Insert { name: Seq<char>, email: Seq<char> },
    FetchOne { id: int },
    FetchAll,
    Update { id: int, name: Seq<char>, email: Seq<char> },
    Delete { id: int },
}

impl View for StoreCommand {
    type V = CommandModel;

    open spec fn view(&self) -> CommandModel {
        match self {
            StoreCommand::Insert { name, email } => CommandModel::Insert {
                name: name@,
                email: email@,
            },
            StoreCommand::FetchOne { id } => CommandModel::FetchOne { id: id as int },
            StoreCommand::FetchAll => CommandModel::FetchAll,
            StoreCommand::Update { id, name, email } => CommandModel::Update {
                id: id as int,
                name: name@,
                email: email@,
            },
            StoreCommand::Delete { id } => CommandModel::Delete { id: id as int },
        }
    }
}

/// What came back from one store operation.
pub enum StoreReply {
    /// An execute succeeded, touching this many rows.
    Affected(u64),
    /// A single-row select found the row.
    Row(User),
    /// A single-row select found nothing.
    NoRow,
    /// A multi-row select succeeded.
    Rows(Vec<User>),
    /// The connection or the operation failed.
    Failed,
}

/// Mathematical model of a store reply.
#[verifier::ext_equal]
pub enum ReplyModel {
    Affected(int),
    Row(UserModel),
    NoRow,
    Rows(Seq<UserModel>),
    Failed,
}

impl View for StoreReply {
    type V = ReplyModel;

    open spec fn view(&self) -> ReplyModel {
        match self {
            StoreReply::Affected(n) => ReplyModel::Affected(*n as int),
            StoreReply::Row(u) => ReplyModel::Row(u@),
            StoreReply::NoRow => ReplyModel::NoRow,
            StoreReply::Rows(v) => ReplyModel::Rows(v@.map_values(|u: User| u@)),
            StoreReply::Failed => ReplyModel::Failed,
        }
    }
}

/// Mathematical model of the store: the rows in insertion order, and the
/// next id the store will assign.
#[verifier::ext_equal]
pub struct StoreModel {
    pub users: Seq<UserModel>,
    pub next_id: int,
}

/// The first row with the given id, if any.
pub open spec fn find_user(us: Seq<UserModel>, id: int) -> Option<UserModel>
    decreases us.len(),
{
    if us.len() == 0 {
        None::<UserModel>
    } else if us[0].id == id {
        Some(us[0])
    } else {
        find_user(us.skip(1), id)
    }
}

/// The rows without those carrying the given id.
pub open spec fn remove_user(us: Seq<UserModel>, id: int) -> Seq<UserModel>
    decreases us.len(),
{
    if us.len() == 0 {
        Seq::<UserModel>::empty()
    } else if us[0].id == id {
        remove_user(us.skip(1), id)
    } else {
        seq![us[0]] + remove_user(us.skip(1), id)
    }
}

/// The rows with name and email overwritten wherever the id matches.
pub open spec fn update_user(us: Seq<UserModel>, id: int, name: Seq<char>, email: Seq<char>) -> Seq<
    UserModel,
>
    decreases us.len(),
{
    if us.len() == 0 {
        Seq::<UserModel>::empty()
    } else {
        let head = if us[0].id == id {
            UserModel { id: id, name: name, email: email }
        } else {
            us[0]
        };
        seq![head] + update_user(us.skip(1), id, name, email)
    }
}

/// Row ids are positive, below the bound, and pairwise distinct.
pub open spec fn ids_ok(us: Seq<UserModel>, bound: int) -> bool {
    &&& forall|k: int| 0 <= k < us.len() ==> 1 <= (#[trigger] us[k].id) < bound
    &&& forall|k1: int, k2: int|
        0 <= k1 < k2 < us.len() ==> (#[trigger] us[k1].id) != (#[trigger] us[k2].id)
}

/// Well-formedness of the store model.
pub open spec fn store_wf(st: StoreModel) -> bool {
    &&& 1 <= st.next_id <= 2147483647
    &&& ids_ok(st.users, st.next_id)
}

/// The store's semantics: the state and reply that one command yields.
pub open spec fn spec_apply(st: StoreModel, cmd: CommandModel) -> (StoreModel, ReplyModel) {
    match cmd {
        CommandModel::Insert { name, email } => if st.next_id <= 2147483646 {
            (
                StoreModel {
                    users: st.users.push(UserModel { id: st.next_id, name: name, email: email }),
                    next_id: st.next_id + 1,
                },
                ReplyModel::Affected(1),
            )
        } else {
            (st, ReplyModel::Failed)
        },
        CommandModel::FetchOne { id } => (
            st,
            match find_user(st.users, id) {
                Some(u) => ReplyModel::Row(u),
                None => ReplyModel::NoRow,
            },
        ),
        CommandModel::FetchAll => (st, ReplyModel::Rows(st.users)),
        CommandModel::Update { id, name, email } => (
            StoreModel { users: update_user(st.users, id, name, email), next_id: st.next_id },
            ReplyModel::Affected(
                if find_user(st.users, id) is Some {
                    1
                } else {
                    0
                },
            ),
        ),
        CommandModel::Delete { id } => (
            StoreModel { users: remove_user(st.users, id), next_id: st.next_id },
            ReplyModel::Affected(st.users.len() - remove_user(st.users, id).len()),
        ),
    }
}

/// Every id found in the shortened rows was already there.
proof fn lemma_remove_user_ids(us: Seq<UserModel>, id: int, id2: int)
    requires
        exists|k: int| 0 <= k < remove_user(us, id).len() && remove_user(us, id)[k].id == id2,
    ensures
        exists|k: int| 0 <= k < us.len() && us[k].id == id2,
    decreases us.len(),
{
    if us.len() > 0 {
        let r = remove_user(us, id);
        let rt = remove_user(us.skip(1), id);
        if us[0].id == id {
            lemma_remove_user_ids(us.skip(1), id, id2);
            let k = choose|k: int| 0 <= k < us.skip(1).len() && us.skip(1)[k].id == id2;
            assert(us[k + 1].id == id2);
        } else {
            let k = choose|k: int| 0 <= k < r.len() && r[k].id == id2;
            if k == 0 {
                assert(us[0].id == id2);
            } else {
                assert(rt[k - 1].id == id2);
                lemma_remove_user_ids(us.skip(1), id, id2);
                let j = choose|j: int| 0 <= j < us.skip(1).len() && us.skip(1)[j].id == id2;
                assert(us[j + 1].id == id2);
            }
        }
    }
}

/// Removal keeps ids positive, bounded and pairwise distinct.
proof fn lemma_remove_user_wf(us: Seq<UserModel>, id: int, bound: int)
    requires
        ids_ok(us, bound),
    ensures
        ids_ok(remove_user(us, id), bound),
        remove_user(us, id).len() <= us.len(),
    decreases us.len(),
{
    if us.len() > 0 {
        assert forall|k: int| 0 <= k < us.skip(1).len() implies 1 <= (#[trigger] us.skip(
            1,
        )[k].id) < bound by {
            assert(us.skip(1)[k] == us[k + 1]);
        }
        assert forall|k1: int, k2: int| 0 <= k1 < k2 < us.skip(1).len() implies (#[trigger] us.skip(
            1,
        )[k1].id) != (#[trigger] us.skip(1)[k2].id) by {
            assert(us.skip(1)[k1] == us[k1 + 1]);
            assert(us.skip(1)[k2] == us[k2 + 1]);
        }
        lemma_remove_user_wf(us.skip(1), id, bound);
        let r = remove_user(us, id);
        let rt = remove_user(us.skip(1), id);
        if us[0].id != id {
            assert(r == seq![us[0]] + rt);
            assert forall|k1: int, k2: int| 0 <= k1 < k2 < r.len() implies (#[trigger] r[k1].id)
                != (#[trigger] r[k2].id) by {
                if k1 == 0 {
                    assert(r[k2] == rt[k2 - 1]);
                    if us[0].id == rt[k2 - 1].id {
                        lemma_remove_user_ids(us.skip(1), id, us[0].id);
                        let j = choose|j: int|
                            0 <= j < us.skip(1).len() && us.skip(1)[j].id == us[0].id;
                        assert(us[j + 1].id == us[0].id);
                    }
                } else {
                    assert(r[k1] == rt[k1 - 1]);
                    assert(r[k2] == rt[k2 - 1]);
                }
            }
            assert forall|k: int| 0 <= k < r.len() implies 1 <= (#[trigger] r[k].id) < bound by {
                if k > 0 {
                    assert(r[k] == rt[k - 1]);
                }
            }
        }
    }
}

/// Pointwise characterisation of [`update_user`].
proof fn lemma_update_user_index(us: Seq<UserModel>, id: int, name: Seq<char>, email: Seq<char>)
    ensures
        update_user(us, id, name, email).len() == us.len(),
        forall|k: int|
            0 <= k < us.len() ==> #[trigger] update_user(us, id, name, email)[k] == (if us[k].id
                == id {
                UserModel { id: id, name: name, email: email }
            } else {
                us[k]
            }),
    decreases us.len(),
{
    if us.len() > 0 {
        lemma_update_user_index(us.skip(1), id, name, email);
        let r = update_user(us, id, name, email);
        assert forall|k: int|
            0 <= k < us.len() implies #[trigger] r[k] == (if us[k].id == id {
            UserModel { id: id, name: name, email: email }
        } else {
            us[k]
        }) by {
            if k > 0 {
                assert(r[k] == update_user(us.skip(1), id, name, email)[k - 1]);
                assert(us.skip(1)[k - 1] == us[k]);
            }
        }
    }
}

/// In-memory reference store: rows in insertion order plus the next id.
pub struct MemStore {
    users: Vec<User>,
    next_id: i32,
}

impl View for MemStore {
    type V = StoreModel;

    closed spec fn view(&self) -> StoreModel {
        StoreModel {
            users: self.users@.map_values(|u: User| u@),
            next_id: self.next_id as int,
        }
    }
}

impl MemStore {
    /// Well-formedness: the model invariant holds.
    pub open spec fn wf(&self) -> bool {
        store_wf(self@)
    }

    /// An empty store whose first assigned id is 1.
    pub fn new() -> (r: MemStore)
        ensures
            r.wf(),
            r@.users == Seq::<UserModel>::empty(),
            r@.next_id == 1,
    {
        let r = MemStore { users: Vec::new(), next_id: 1 };
        proof {
            assert(r@.users =~= Seq::<UserModel>::empty());
        }
        r
    }

    /// Applies one command, with the state change and reply of
    /// [`spec_apply`].
    pub fn apply(&mut self, cmd: &StoreCommand) -> (r: StoreReply)
        requires
            old(self).wf(),
        ensures
            final(self).wf(),
            final(self)@ == spec_apply(old(self)@, cmd@).0,
            r@ == spec_apply(old(self)@, cmd@).1,
    {
        match cmd {
            StoreCommand::Insert { name, email } => self.do_insert(name, email),
            StoreCommand::FetchOne { id } => self.do_fetch_one(*id),
            StoreCommand::FetchAll => self.do_fetch_all(),
            StoreCommand::Update { id, name, email } => self.do_update(*id, name, email),
            StoreCommand::Delete { id } => self.do_delete(*id),
        }
    }

    fn do_insert(&mut self, name: &String, email: &String) -> (r: StoreReply)
        requires
            old(self).wf(),
        ensures
            final(self).wf(),
            final(self)@ == spec_apply(
                old(self)@,
                CommandModel::Insert { name: name@, email: email@ },
            ).0,
            r@ == spec_apply(old(self)@, CommandModel::Insert { name: name@, email: email@ }).1,
    {
        if self.next_id <= 2147483646 {
            let id = self.next_id;
            self.users.push(User { id: id, name: name.clone(), email: email.clone() });
            self.next_id = id + 1;
            proof {
                let ghost olds = old(self)@.users;
                let u = UserModel { id: id as int, name: name@, email: email@ };
                assert(self@.users =~= olds.push(u));
                assert forall|k: int| 0 <= k < self@.users.len() implies 1 <= (
                #[trigger] self@.users[k].id) < self@.next_id by {
                    if k < olds.len() {
                        assert(self@.users[k] == olds[k]);
                    }
                }
                assert forall|k1: int, k2: int| 0 <= k1 < k2 < self@.users.len() implies (
                #[trigger] self@.users[k1].id) != (#[trigger] self@.users[k2].id) by {
                    assert(self@.users[k1] == olds[k1]);
                    if k2 < olds.len() {
                        assert(self@.users[k2] == olds[k2]);
                    }
                }
            }
            StoreReply::Affected(1)
        } else {
            StoreReply::Failed
        }
    }

    fn do_fetch_one(&mut self, id: i32) -> (r: StoreReply)
        requires
            old(self).wf(),
        ensures
            final(self).wf(),
            final(self)@ == spec_apply(old(self)@, CommandModel::FetchOne { id: id as int }).0,
            r@ == spec_apply(old(self)@, CommandModel::FetchOne { id: id as int }).1,
    {
        let ghost ms = self@.users;
        let n = self.users.len();
        let mut i: usize = 0;
        proof {
            assert(ms.skip(0) =~= ms);
        }
        while i < n
            invariant
                0 <= i <= n,
                n == self.users@.len(),
                *self == *old(self),
                old(self).wf(),
                ms == self@.users,
                find_user(ms, id as int) == find_user(ms.skip(i as int), id as int),
            decreases n - i,
        {
            proof {
                assert(ms.skip(i as int)[0] == ms[i as int]);
                assert(ms[i as int] == self.users@[i as int]@);
                assert(ms.skip(i as int).skip(1) =~= ms.skip(i as int + 1));
            }
            if self.users[i].id == id {
                let u = User {
                    id: self.users[i].id,
                    name: self.users[i].name.clone(),
                    email: self.users[i].email.clone(),
                };
                proof {
                    assert(u@ =~= ms[i as int]);
                }
                return StoreReply::Row(u);
            }
            i = i + 1;
        }
        proof {
            assert(ms.skip(n as int) =~= Seq::<UserModel>::empty());
        }
        StoreReply::NoRow
    }

    fn do_fetch_all(&mut self) -> (r: StoreReply)
        requires
            old(self).wf(),
        ensures
            final(self).wf(),
            final(self)@ == spec_apply(old(self)@, CommandModel::FetchAll).0,
            r@ == spec_apply(old(self)@, CommandModel::FetchAll).1,
    {
        let ghost ms = self@.users;
        let n = self.users.len();
        let mut out: Vec<User> = Vec::new();
        let mut i: usize = 0;
        while i < n
            invariant
                0 <= i <= n,
                n == self.users@.len(),
                *self == *old(self),
                ms == self@.users,
                out@.len() == i,
                forall|k: int| 0 <= k < i ==> (#[trigger] out@[k])@ == ms[k],
            decreases n - i,
        {
            let u = User {
                id: self.users[i].id,
                name: self.users[i].name.clone(),
                email: self.users[i].email.clone(),
            };
            proof {
                assert(u@ =~= ms[i as int]);
            }
            out.push(u);
            i = i + 1;
        }
        proof {
            assert(out@.map_values(|u: User| u@) =~= ms);
        }
        StoreReply::Rows(out)
    }

    fn do_update(&mut self, id: i32, name: &String, email: &String) -> (r: StoreReply)
        requires
            old(self).wf(),
        ensures
            final(self).wf(),
            final(self)@ == spec_apply(
                old(self)@,
                CommandModel::Update { id: id as int, name: name@, email: email@ },
            ).0,
            r@ == spec_apply(
                old(self)@,
                CommandModel::Update { id: id as int, name: name@, email: email@ },
            ).1,
    {
        let ghost ms = self@.users;
        let ghost target = update_user(ms, id as int, name@, email@);
        let n = self.users.len();
        let mut out: Vec<User> = Vec::new();
        let mut found: bool = false;
        let mut i: usize = 0;
        proof {
            assert(ms.skip(0) =~= ms);
            assert(out@.map_values(|u: User| u@) =~= Seq::<UserModel>::empty());
        }
        while i < n
            invariant
                0 <= i <= n,
                n == self.users@.len(),
                *self == *old(self),
                ms == self@.users,
                target == update_user(ms, id as int, name@, email@),
                target == out@.map_values(|u: User| u@) + update_user(
                    ms.skip(i as int),
                    id as int,
                    name@,
                    email@,
                ),
                find_user(ms, id as int) is Some <==> (found || find_user(
                    ms.skip(i as int),
                    id as int,
                ) is Some),
                out@.len() == i,
            decreases n - i,
        {
            let ghost pre = out@.map_values(|u: User| u@);
            proof {
                assert(ms.skip(i as int)[0] == ms[i as int]);
                assert(ms[i as int] == self.users@[i as int]@);
                assert(ms.skip(i as int).skip(1) =~= ms.skip(i as int + 1));
            }
            if self.users[i].id == id {
                found = true;
                out.push(User { id: id, name: name.clone(), email: email.clone() });
                proof {
                    let u = UserModel { id: id as int, name: name@, email: email@ };
                    assert(out@.map_values(|x: User| x@) =~= pre.push(u));
                    assert(pre.push(u) + update_user(ms.skip(i as int + 1), id as int, name@, email@)
                        =~= pre + update_user(ms.skip(i as int), id as int, name@, email@));
                }
            } else {
                let u = User {
                    id: self.users[i].id,
                    name: self.users[i].name.clone(),
                    email: self.users[i].email.clone(),
                };
                proof {
                    assert(u@ =~= ms[i as int]);
                }
                out.push(u);
                proof {
                    assert(out@.map_values(|x: User| x@) =~= pre.push(ms[i as int]));
                    assert(pre.push(ms[i as int]) + update_user(
                        ms.skip(i as int + 1),
                        id as int,
                        name@,
                        email@,
                    ) =~= pre + update_user(ms.skip(i as int), id as int, name@, email@));
                }
            }
            i = i + 1;
        }
        proof {
            assert(ms.skip(n as int) =~= Seq::<UserModel>::empty());
            assert(out@.map_values(|u: User| u@) + update_user(
                Seq::<UserModel>::empty(),
                id as int,
                name@,
                email@,
            ) =~= out@.map_values(|u: User| u@));
        }
        self.users = out;
        proof {
            lemma_update_user_index(ms, id as int, name@, email@);
            assert forall|k: int| 0 <= k < self@.users.len() implies 1 <= (
            #[trigger] self@.users[k].id) < self@.next_id by {
                assert(self@.users[k] == target[k]);
            }
            assert forall|k1: int, k2: int| 0 <= k1 < k2 < self@.users.len() implies (
            #[trigger] self@.users[k1].id) != (#[trigger] self@.users[k2].id) by {
                assert(self@.users[k1] == target[k1]);
                assert(self@.users[k2] == target[k2]);
            }
        }
        if found {
            StoreReply::Affected(1)
        } else {
            StoreReply::Affected(0)
        }
    }

    fn do_delete(&mut self, id: i32) -> (r: StoreReply)
        requires
            old(self).wf(),
        ensures
            final(self).wf(),
            final(self)@ == spec_apply(old(self)@, CommandModel::Delete { id: id as int }).0,
            r@ == spec_apply(old(self)@, CommandModel::Delete { id: id as int }).1,
    {
        let ghost ms = self@.users;
        let ghost target = remove_user(ms, id as int);
        let n = self.users.len();
        let mut out: Vec<User> = Vec::new();
        let mut i: usize = 0;
        proof {
            assert(ms.skip(0) =~= ms);
            assert(out@.map_values(|u: User| u@) =~= Seq::<UserModel>::empty());
        }
        while i < n
            invariant
                0 <= i <= n,
                n == self.users@.len(),
                *self == *old(self),
                ms == self@.users,
                target == remove_user(ms, id as int),
                target == out@.map_values(|u: User| u@) + remove_user(
                    ms.skip(i as int),
                    id as int,
                ),
                out@.len() <= i,
            decreases n - i,
        {
            let ghost pre = out@.map_values(|u: User| u@);
            proof {
                assert(ms.skip(i as int)[0] == ms[i as int]);
                assert(ms[i as int] == self.users@[i as int]@);
                assert(ms.skip(i as int).skip(1) =~= ms.skip(i as int + 1));
            }
            if self.users[i].id != id {
                let u = User {
                    id: self.users[i].id,
                    name: self.users[i].name.clone(),
                    email: self.users[i].email.clone(),
                };
                proof {
                    assert(u@ =~= ms[i as int]);
                }
                out.push(u);
                proof {
                    assert(out@.map_values(|x: User| x@) =~= pre.push(ms[i as int]));
                    assert(pre.push(ms[i as int]) + remove_user(ms.skip(i as int + 1), id as int)
                        =~= pre + remove_user(ms.skip(i as int), id as int));
                }
            }
            i = i + 1;
        }
        proof {
            assert(ms.skip(n as int) =~= Seq::<UserModel>::empty());
            assert(out@.map_values(|u: User| u@) + remove_user(
                Seq::<UserModel>::empty(),
                id as int,
            ) =~= out@.map_values(|u: User| u@));
        }
        let removed = n - out.len();
        self.users = out;
        proof {
            lemma_remove_user_wf(ms, id as int, old(self)@.next_id);
        }
        StoreReply::Affected(removed as u64)
    }
}

} // verus!
