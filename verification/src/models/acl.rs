//! Access control: what a user, or a group and the groups above it, may do
//! in a namespace.

use vstd::prelude::*;
use crate::db::{Criterion, find_where, first, meeting, Row, Site};
use crate::models::torrent::Torrent;
use crate::models::user::User;
use crate::models::Uuid;
use crate::state::AclContainer;
use crate::util::same_text;

verus! {

/// What may be done, from nothing at all up to deleting. Each permission
/// includes those before it.
#[derive(Debug, Clone, Copy, PartialEq, Eq, Structural)]
pub enum Permission {
    /// Nothing.
    NoAccess,
    Read,
    Write,
    Create,
    Delete,
}

impl Permission {
    /// The place of a permission in their order.
    pub open spec fn rank(self) -> int {
        match self {
            Permission::NoAccess => 0,
            Permission::Read => 1,
            Permission::Write => 2,
            Permission::Create => 3,
            Permission::Delete => 4,
        }
    }

    /// The place of the permission in their order.
    pub fn level(&self) -> (r: u8)
        ensures
            r == self.rank(),
    {
        match self {
            Permission::NoAccess => 0,
            Permission::Read => 1,
            Permission::Write => 2,
            Permission::Create => 3,
            Permission::Delete => 4,
        }
    }
}

/// A rule that gives a role a permission in a namespace.
pub trait Rule {
    /// The permission that the rule gives.
    spec fn granted(&self) -> Permission;

    /// Whether the rule permits `perm`: it does where `perm` is at most
    /// the permission it gives.
    fn is_allowed(&self, perm: &Permission) -> (r: bool)
        ensures
            r == (perm.rank() <= self.granted().rank()),
    ;

    /// Gives the role the permission `perm`.
    fn permit(&mut self, perm: Permission)
        ensures
            final(self).granted() == perm,
    ;

    /// The permission that the rule gives.
    fn permission(&self) -> (r: &Permission)
        ensures
            *r == self.granted(),
    ;

    /// The namespace of the rule.
    spec fn scope(&self) -> Seq<char>;

    /// The role of the rule.
    spec fn holder(&self) -> Uuid;

    /// The namespace of the rule.
    fn namespace(&self) -> (r: &str)
        ensures
            r@ == self.scope(),
    ;

    /// The role of the rule.
    fn role(&self) -> (r: &Uuid)
        ensures
            *r == self.holder(),
    ;
}

/// A rule for a group.
#[derive(Debug)]
pub struct GroupRule {
    pub id: Uuid,
    pub namespace: String,
    pub group_id: Uuid,
    pub permission: Permission,
}

/// A rule for a user.
#[derive(Debug)]
pub struct UserRule {
    pub id: Uuid,
    pub namespace: String,
    pub user_id: Uuid,
    pub permission: Permission,
}

impl View for GroupRule {
    type V = GroupRule;

    open spec fn view(&self) -> GroupRule {
        *self
    }
}

impl View for UserRule {
    type V = UserRule;

    open spec fn view(&self) -> UserRule {
        *self
    }
}

impl Row for GroupRule {
    fn duplicate(&self) -> (r: Self) {
        GroupRule {
            id: self.id,
            namespace: self.namespace.clone(),
            group_id: self.group_id,
            permission: self.permission,
        }
    }
}

impl Row for UserRule {
    fn duplicate(&self) -> (r: Self) {
        UserRule {
            id: self.id,
            namespace: self.namespace.clone(),
            user_id: self.user_id,
            permission: self.permission,
        }
    }
}

impl Rule for GroupRule {
    open spec fn granted(&self) -> Permission {
        self.permission
    }

    fn is_allowed(&self, perm: &Permission) -> (r: bool) {
        let asked = perm.level();
        let given = self.permission.level();
        assert(self.granted() == self.permission);
        asked <= given
    }

    fn permit(&mut self, perm: Permission) {
        self.permission = perm;
    }

    fn permission(&self) -> (r: &Permission) {
        &self.permission
    }

    open spec fn scope(&self) -> Seq<char> {
        self.namespace@
    }

    open spec fn holder(&self) -> Uuid {
        self.group_id
    }

    fn namespace(&self) -> (r: &str) {
        self.namespace.as_str()
    }

    fn role(&self) -> (r: &Uuid) {
        &self.group_id
    }
}

impl Rule for UserRule {
    open spec fn granted(&self) -> Permission {
        self.permission
    }

    fn is_allowed(&self, perm: &Permission) -> (r: bool) {
        let asked = perm.level();
        let given = self.permission.level();
        assert(self.granted() == self.permission);
        asked <= given
    }

    fn permit(&mut self, perm: Permission) {
        self.permission = perm;
    }

    fn permission(&self) -> (r: &Permission) {
        &self.permission
    }

    open spec fn scope(&self) -> Seq<char> {
        self.namespace@
    }

    open spec fn holder(&self) -> Uuid {
        self.user_id
    }

    fn namespace(&self) -> (r: &str) {
        self.namespace.as_str()
    }

    fn role(&self) -> (r: &Uuid) {
        &self.user_id
    }
}

/// The condition to be the rule of a group in a namespace.
pub struct GroupRuleFor<'a> {
    pub namespace: &'a str,
    pub group_id: Uuid,
}

impl<'a> Criterion<GroupRule> for GroupRuleFor<'a> {
    open spec fn holds(&self, v: GroupRule) -> bool {
        v.namespace@ == self.namespace@ && v.group_id == self.group_id
    }

    fn test(&self, row: &GroupRule) -> (b: bool) {
        row.group_id == self.group_id && same_text(row.namespace.as_str(), self.namespace)
    }
}

/// The condition to be the rule of a user in a namespace.
pub struct UserRuleFor<'a> {
    pub namespace: &'a str,
    pub user_id: Uuid,
}

impl<'a> Criterion<UserRule> for UserRuleFor<'a> {
    open spec fn holds(&self, v: UserRule) -> bool {
        v.namespace@ == self.namespace@ && v.user_id == self.user_id
    }

    fn test(&self, row: &UserRule) -> (b: bool) {
        row.user_id == self.user_id && same_text(row.namespace.as_str(), self.namespace)
    }
}

impl GroupRule {
    /// Whether the rule of a group in a namespace, as the rules table has
    /// it, permits `perm`.
    pub fn allowed(group: &Uuid, ns: &str, perm: &Permission, db: &Site) -> (r: bool)
        ensures
            r == match first(
                db@.group_rules,
                meeting::<GroupRule, GroupRuleFor>(GroupRuleFor { namespace: ns, group_id: *group }),
            ) {
                Some(rule) => perm.rank() <= rule.permission.rank(),
                None => false,
            },
    {
        match find_where(&db.group_rules, &GroupRuleFor { namespace: ns, group_id: *group }) {
            Some(rule) => rule.is_allowed(perm),
            None => false,
        }
    }
}

impl UserRule {
    /// Whether the rule of a user in a namespace, as the rules table has
    /// it, permits `perm`.
    pub fn allowed(user: &Uuid, ns: &str, perm: &Permission, db: &Site) -> (r: bool)
        ensures
            r == match first(
                db@.user_rules,
                meeting::<UserRule, UserRuleFor>(UserRuleFor { namespace: ns, user_id: *user }),
            ) {
                Some(rule) => perm.rank() <= rule.permission.rank(),
                None => false,
            },
    {
        match find_where(&db.user_rules, &UserRuleFor { namespace: ns, user_id: *user }) {
            Some(rule) => rule.is_allowed(perm),
            None => false,
        }
    }
}

/// The rules in force. Of two rules for one role in one namespace the one
/// loaded later counts, and so does the parent of a group that was loaded
/// later.
#[derive(Debug)]
pub struct Acl {
    group_rules: Vec<GroupRule>,
    user_rules: Vec<UserRule>,
    groups: Vec<(Uuid, Uuid)>,
}

/// The rules in force as mathematical values: the permission of each role
/// in each namespace, and the parent of each group that has one.
pub ghost struct AclView {
    pub group_rules: Map<(Seq<char>, Uuid), Permission>,
    pub user_rules: Map<(Seq<char>, Uuid), Permission>,
    pub groups: Map<Uuid, Uuid>,
}

/// The permissions that a list of group rules gives; later rules count.
pub open spec fn group_permissions(rules: Seq<GroupRule>) -> Map<(Seq<char>, Uuid), Permission>
    decreases rules.len(),
{
    if rules.len() == 0 {
        Map::empty()
    } else {
        group_permissions(rules.drop_last()).insert(
            (rules.last().namespace@, rules.last().group_id),
            rules.last().permission,
        )
    }
}

/// The permissions that a list of user rules gives; later rules count.
pub open spec fn user_permissions(rules: Seq<UserRule>) -> Map<(Seq<char>, Uuid), Permission>
    decreases rules.len(),
{
    if rules.len() == 0 {
        Map::empty()
    } else {
        user_permissions(rules.drop_last()).insert(
            (rules.last().namespace@, rules.last().user_id),
            rules.last().permission,
        )
    }
}

/// The parents that a list of pairs of group and parent gives; later
/// pairs count.
pub open spec fn parents(pairs: Seq<(Uuid, Uuid)>) -> Map<Uuid, Uuid>
    decreases pairs.len(),
{
    if pairs.len() == 0 {
        Map::empty()
    } else {
        parents(pairs.drop_last()).insert(pairs.last().0, pairs.last().1)
    }
}

/// Whether a group may do `perm` in a namespace: its own rule decides
/// where it has one; else the rule of the nearest group above it that has
/// one; and it may not where none has. At most `steps` groups above it are
/// asked.
pub open spec fn group_may(acl: AclView, gid: Uuid, ns: Seq<char>, perm: Permission, steps: nat) -> bool
    decreases steps,
{
    if acl.group_rules.contains_key((ns, gid)) {
        perm.rank() <= acl.group_rules[(ns, gid)].rank()
    } else if steps == 0 || !acl.groups.contains_key(gid) {
        false
    } else {
        group_may(acl, acl.groups[gid], ns, perm, (steps - 1) as nat)
    }
}

/// A group that may do something where a number of groups above it are
/// asked may do it where more are asked.
pub proof fn lemma_group_may_more_steps(
    acl: AclView,
    gid: Uuid,
    ns: Seq<char>,
    perm: Permission,
    n: nat,
    m: nat,
)
    requires
        n <= m,
        group_may(acl, gid, ns, perm, n),
    ensures
        group_may(acl, gid, ns, perm, m),
    decreases n,
{
    if !acl.group_rules.contains_key((ns, gid)) {
        lemma_group_may_more_steps(acl, acl.groups[gid], ns, perm, (n - 1) as nat, (m - 1) as nat);
    }
}

/// A group that may do something may do what ranks below it.
pub proof fn lemma_group_may_less(
    acl: AclView,
    gid: Uuid,
    ns: Seq<char>,
    perm: Permission,
    less: Permission,
    steps: nat,
)
    requires
        less.rank() <= perm.rank(),
        group_may(acl, gid, ns, perm, steps),
    ensures
        group_may(acl, gid, ns, less, steps),
    decreases steps,
{
    if !acl.group_rules.contains_key((ns, gid)) {
        lemma_group_may_less(acl, acl.groups[gid], ns, perm, less, (steps - 1) as nat);
    }
}

/// A group without a rule of its own in a namespace may there what the
/// group above it may, however long the chain above that is.
pub proof fn lemma_group_may_inherits(
    acl: AclView,
    gid: Uuid,
    ns: Seq<char>,
    perm: Permission,
    steps: nat,
)
    requires
        !acl.group_rules.contains_key((ns, gid)),
        acl.groups.contains_key(gid),
        steps > 0,
    ensures
        group_may(acl, gid, ns, perm, steps) == group_may(
            acl,
            acl.groups[gid],
            ns,
            perm,
            (steps - 1) as nat,
        ),
{
}

/// Whether a user of a group may do `perm` in a namespace: the user's own
/// rule decides where there is one, else the group's.
pub open spec fn user_may(
    acl: AclView,
    uid: Uuid,
    gid: Uuid,
    ns: Seq<char>,
    perm: Permission,
    steps: nat,
) -> bool {
    if acl.user_rules.contains_key((ns, uid)) {
        perm.rank() <= acl.user_rules[(ns, uid)].rank()
    } else {
        group_may(acl, gid, ns, perm, steps)
    }
}

impl View for Acl {
    type V = AclView;

    closed spec fn view(&self) -> AclView {
        AclView {
            group_rules: group_permissions(self.group_rules@),
            user_rules: user_permissions(self.user_rules@),
            groups: parents(self.groups@),
        }
    }
}

fn group_rule<'a>(rules: &'a Vec<GroupRule>, ns: &str, gid: Uuid) -> (r: Option<&'a GroupRule>)
    ensures
        r.is_some() == group_permissions(rules@).contains_key((ns@, gid)),
        r matches Some(rule) ==> rule.permission == group_permissions(rules@)[(ns@, gid)],
{
    let mut i: usize = rules.len();
    assert(rules@ =~= rules@.subrange(0, rules.len() as int));
    while i > 0
        invariant
            i <= rules.len(),
            group_permissions(rules@).contains_key((ns@, gid)) == group_permissions(
                rules@.subrange(0, i as int),
            ).contains_key((ns@, gid)),
            group_permissions(rules@).contains_key((ns@, gid)) ==> group_permissions(rules@)[(
                ns@,
                gid,
            )] == group_permissions(rules@.subrange(0, i as int))[(ns@, gid)],
        decreases i,
    {
        let ghost cur = rules@.subrange(0, i as int);
        assert(cur.drop_last() =~= rules@.subrange(0, i - 1));
        assert(cur.last() == rules@[i - 1]);
        i -= 1;
        if rules[i].group_id == gid && same_text(rules[i].namespace.as_str(), ns) {
            return Some(&rules[i]);
        }
    }
    assert(rules@.subrange(0, 0) =~= Seq::empty());
    None
}

fn user_rule<'a>(rules: &'a Vec<UserRule>, ns: &str, uid: Uuid) -> (r: Option<&'a UserRule>)
    ensures
        r.is_some() == user_permissions(rules@).contains_key((ns@, uid)),
        r matches Some(rule) ==> rule.permission == user_permissions(rules@)[(ns@, uid)],
{
    let mut i: usize = rules.len();
    assert(rules@ =~= rules@.subrange(0, rules.len() as int));
    while i > 0
        invariant
            i <= rules.len(),
            user_permissions(rules@).contains_key((ns@, uid)) == user_permissions(
                rules@.subrange(0, i as int),
            ).contains_key((ns@, uid)),
            user_permissions(rules@).contains_key((ns@, uid)) ==> user_permissions(rules@)[(
                ns@,
                uid,
            )] == user_permissions(rules@.subrange(0, i as int))[(ns@, uid)],
        decreases i,
    {
        let ghost cur = rules@.subrange(0, i as int);
        assert(cur.drop_last() =~= rules@.subrange(0, i - 1));
        assert(cur.last() == rules@[i - 1]);
        i -= 1;
        if rules[i].user_id == uid && same_text(rules[i].namespace.as_str(), ns) {
            return Some(&rules[i]);
        }
    }
    assert(rules@.subrange(0, 0) =~= Seq::empty());
    None
}

fn parent(pairs: &Vec<(Uuid, Uuid)>, gid: Uuid) -> (r: Option<Uuid>)
    ensures
        r.is_some() == parents(pairs@).contains_key(gid),
        r matches Some(p) ==> p == parents(pairs@)[gid],
{
    let mut i: usize = pairs.len();
    assert(pairs@ =~= pairs@.subrange(0, pairs.len() as int));
    while i > 0
        invariant
            i <= pairs.len(),
            parents(pairs@).contains_key(gid) == parents(pairs@.subrange(0, i as int)).contains_key(
                gid,
            ),
            parents(pairs@).contains_key(gid) ==> parents(pairs@)[gid] == parents(
                pairs@.subrange(0, i as int),
            )[gid],
        decreases i,
    {
        let ghost cur = pairs@.subrange(0, i as int);
        assert(cur.drop_last() =~= pairs@.subrange(0, i - 1));
        assert(cur.last() == pairs@[i - 1]);
        i -= 1;
        if pairs[i].0 == gid {
            return Some(pairs[i].1);
        }
    }
    assert(pairs@.subrange(0, 0) =~= Seq::empty());
    None
}

impl Acl {
    /// Rules that permit nothing.
    pub fn new() -> (r: Self)
        ensures
            r@ == (AclView {
                group_rules: Map::empty(),
                user_rules: Map::empty(),
                groups: Map::empty(),
            }),
            r.depth() == 0,
    {
        Acl { group_rules: Vec::new(), user_rules: Vec::new(), groups: Vec::new() }
    }

    /// The rules for groups, in the order in which they were loaded.
    pub closed spec fn group_list(&self) -> Seq<GroupRule> {
        self.group_rules@
    }

    /// The rules for users, in the order in which they were loaded.
    pub closed spec fn user_list(&self) -> Seq<UserRule> {
        self.user_rules@
    }

    /// The pairs of group and parent, in the order in which they were
    /// loaded.
    pub closed spec fn parent_list(&self) -> Seq<(Uuid, Uuid)> {
        self.groups@
    }

    /// The rules in force are those that the lists give.
    pub proof fn lemma_view(&self)
        ensures
            self@ == (AclView {
                group_rules: group_permissions(self.group_list()),
                user_rules: user_permissions(self.user_list()),
                groups: parents(self.parent_list()),
            }),
            self.depth() == self.parent_list().len(),
    {
    }

    /// The number of groups above a group that are asked for a rule: as
    /// many as parents were loaded.
    pub closed spec fn depth(&self) -> nat {
        self.groups@.len()
    }

    /// A copy of the rules.
    pub fn duplicate(&self) -> (r: Self)
        ensures
            r@ == self@,
            r.depth() == self.depth(),
    {
        let mut group_rules: Vec<GroupRule> = Vec::new();
        let mut i: usize = 0;
        while i < self.group_rules.len()
            invariant
                i <= self.group_rules.len(),
                group_rules@ == self.group_rules@.take(i as int),
            decreases self.group_rules.len() - i,
        {
            group_rules.push(self.group_rules[i].duplicate());
            assert(self.group_rules@.take(i + 1) =~= self.group_rules@.take(i as int).push(
                self.group_rules@[i as int],
            ));
            i += 1;
        }
        assert(self.group_rules@.take(self.group_rules.len() as int) =~= self.group_rules@);
        let mut user_rules: Vec<UserRule> = Vec::new();
        let mut i: usize = 0;
        while i < self.user_rules.len()
            invariant
                i <= self.user_rules.len(),
                user_rules@ == self.user_rules@.take(i as int),
            decreases self.user_rules.len() - i,
        {
            user_rules.push(self.user_rules[i].duplicate());
            assert(self.user_rules@.take(i + 1) =~= self.user_rules@.take(i as int).push(
                self.user_rules@[i as int],
            ));
            i += 1;
        }
        assert(self.user_rules@.take(self.user_rules.len() as int) =~= self.user_rules@);
        let mut groups: Vec<(Uuid, Uuid)> = Vec::new();
        let mut i: usize = 0;
        while i < self.groups.len()
            invariant
                i <= self.groups.len(),
                groups@ == self.groups@.take(i as int),
            decreases self.groups.len() - i,
        {
            groups.push(self.groups[i]);
            assert(self.groups@.take(i + 1) =~= self.groups@.take(i as int).push(
                self.groups@[i as int],
            ));
            i += 1;
        }
        assert(self.groups@.take(self.groups.len() as int) =~= self.groups@);
        Acl { group_rules, user_rules, groups }
    }

    /// Puts rules for groups behind those in force.
    pub fn load_group_acls(&mut self, db: &Site)
        ensures
            final(self).group_list() == old(self).group_list() + db@.group_rules,
            final(self).user_list() == old(self).user_list(),
            final(self).parent_list() == old(self).parent_list(),
    {
        let mut i: usize = 0;
        assert(db@.group_rules.take(0) =~= Seq::empty());
        assert(self.group_rules@ =~= old(self).group_rules@ + db@.group_rules.take(0));
        while i < db.group_rules.len()
            invariant
                i <= db.group_rules.len(),
                self.group_rules@ == old(self).group_rules@ + db@.group_rules.take(i as int),
                self.user_rules@ == old(self).user_rules@,
                self.groups@ == old(self).groups@,
            decreases db.group_rules.len() - i,
        {
            self.group_rules.push(db.group_rules[i].duplicate());
            assert(db@.group_rules.take(i + 1) =~= db@.group_rules.take(i as int).push(
                db.group_rules@[i as int]@,
            ));
            assert(self.group_rules@ =~= old(self).group_rules@ + db@.group_rules.take(i + 1));
            i += 1;
        }
        assert(db@.group_rules.take(db.group_rules.len() as int) =~= db@.group_rules);
    }

    /// Puts rules for users behind those in force.
    pub fn load_user_acls(&mut self, db: &Site)
        ensures
            final(self).user_list() == old(self).user_list() + db@.user_rules,
            final(self).group_list() == old(self).group_list(),
            final(self).parent_list() == old(self).parent_list(),
    {
        let mut i: usize = 0;
        assert(db@.user_rules.take(0) =~= Seq::empty());
        assert(self.user_rules@ =~= old(self).user_rules@ + db@.user_rules.take(0));
        while i < db.user_rules.len()
            invariant
                i <= db.user_rules.len(),
                self.user_rules@ == old(self).user_rules@ + db@.user_rules.take(i as int),
                self.group_rules@ == old(self).group_rules@,
                self.groups@ == old(self).groups@,
            decreases db.user_rules.len() - i,
        {
            self.user_rules.push(db.user_rules[i].duplicate());
            assert(db@.user_rules.take(i + 1) =~= db@.user_rules.take(i as int).push(
                db.user_rules@[i as int]@,
            ));
            assert(self.user_rules@ =~= old(self).user_rules@ + db@.user_rules.take(i + 1));
            i += 1;
        }
        assert(db@.user_rules.take(db.user_rules.len() as int) =~= db@.user_rules);
    }

    /// Whether a user of a group may do `perm` in a namespace: see
    /// [`user_may`].
    pub fn is_allowed(&self, uid: &Uuid, gid: &Uuid, ns: &str, perm: &Permission) -> (r: bool)
        ensures
            r == user_may(self@, *uid, *gid, ns@, *perm, self.depth()),
    {
        match user_rule(&self.user_rules, ns, *uid) {
            Some(rule) => rule.is_allowed(perm),
            None => self.is_group_allowed(gid, ns, perm),
        }
    }

    /// Whether a group may do `perm` in a namespace: see [`group_may`].
    pub fn is_group_allowed(&self, gid: &Uuid, ns: &str, perm: &Permission) -> (r: bool)
        ensures
            r == group_may(self@, *gid, ns@, *perm, self.depth()),
    {
        let mut cur = *gid;
        let mut steps: usize = self.groups.len();
        loop
            invariant
                steps <= self.groups.len(),
                group_may(self@, *gid, ns@, *perm, self.depth()) == group_may(
                    self@,
                    cur,
                    ns@,
                    *perm,
                    steps as nat,
                ),
            decreases steps,
        {
            match group_rule(&self.group_rules, ns, cur) {
                Some(rule) => {
                    return rule.is_allowed(perm);
                },
                None => {},
            }
            if steps == 0 {
                return false;
            }
            match parent(&self.groups, cur) {
                Some(p) => {
                    cur = p;
                    steps -= 1;
                },
                None => {
                    return false;
                },
            }
        }
    }
}

/// The place of the last pair for a group, or -1 where there is none.
pub open spec fn last_place(pairs: Seq<(Uuid, Uuid)>, gid: Uuid) -> int
    decreases pairs.len(),
{
    if pairs.len() == 0 {
        -1
    } else if pairs.last().0 == gid {
        pairs.len() - 1
    } else {
        last_place(pairs.drop_last(), gid)
    }
}

/// The pairs after a group is given a parent: the pair takes the place of
/// the one that counts for the group, or becomes the last where the group
/// has none.
pub open spec fn put_parent(pairs: Seq<(Uuid, Uuid)>, gid: Uuid, pid: Uuid) -> Seq<(Uuid, Uuid)> {
    if last_place(pairs, gid) >= 0 {
        pairs.update(last_place(pairs, gid), (gid, pid))
    } else {
        pairs.push((gid, pid))
    }
}

/// The pairs after the parents of a groups table are put, in table order;
/// a group without a parent puts none.
pub open spec fn loaded_parents(pairs: Seq<(Uuid, Uuid)>, groups: Seq<crate::models::group::Group>) -> Seq<
    (Uuid, Uuid),
>
    decreases groups.len(),
{
    if groups.len() == 0 {
        pairs
    } else {
        match groups.last().parent_id {
            Some(pid) => put_parent(
                loaded_parents(pairs, groups.drop_last()),
                groups.last().id,
                pid,
            ),
            None => loaded_parents(pairs, groups.drop_last()),
        }
    }
}

/// `last_place` is a place of a pair for the group, or -1 where no pair is
/// for it.
pub proof fn lemma_last_place(pairs: Seq<(Uuid, Uuid)>, gid: Uuid)
    ensures
        -1 <= last_place(pairs, gid) < pairs.len(),
        last_place(pairs, gid) >= 0 ==> pairs[last_place(pairs, gid)].0 == gid,
        last_place(pairs, gid) >= 0 <==> parents(pairs).contains_key(gid),
    decreases pairs.len(),
{
    if pairs.len() > 0 {
        lemma_last_place(pairs.drop_last(), gid);
    }
}

/// Giving a group a parent gives it that parent and changes the parent of
/// no other group; the list of pairs grows only where the group had none.
pub proof fn lemma_put_parent(pairs: Seq<(Uuid, Uuid)>, gid: Uuid, pid: Uuid)
    ensures
        parents(put_parent(pairs, gid, pid)) == parents(pairs).insert(gid, pid),
        put_parent(pairs, gid, pid).len() == if parents(pairs).contains_key(gid) {
            pairs.len()
        } else {
            pairs.len() + 1
        },
    decreases pairs.len(),
{
    lemma_last_place(pairs, gid);
    if pairs.len() == 0 {
        assert(pairs.push((gid, pid)).drop_last() =~= pairs);
    } else if pairs.last().0 == gid {
        let after = pairs.update(pairs.len() - 1, (gid, pid));
        assert(after.drop_last() =~= pairs.drop_last());
        assert(parents(after) =~= parents(pairs).insert(gid, pid));
    } else {
        let init = pairs.drop_last();
        lemma_put_parent(init, gid, pid);
        lemma_last_place(init, gid);
        let after = put_parent(pairs, gid, pid);
        if last_place(init, gid) >= 0 {
            assert(after.drop_last() =~= put_parent(init, gid, pid));
            assert(after.last() == pairs.last());
            assert(parents(after) =~= parents(pairs).insert(gid, pid));
        } else {
            assert(after.drop_last() =~= pairs);
        }
    }
}

fn place_of(pairs: &Vec<(Uuid, Uuid)>, gid: Uuid) -> (r: Option<usize>)
    ensures
        match r {
            Some(i) => i == last_place(pairs@, gid),
            None => last_place(pairs@, gid) == -1,
        },
{
    let mut i: usize = pairs.len();
    assert(pairs@ =~= pairs@.subrange(0, pairs.len() as int));
    while i > 0
        invariant
            i <= pairs.len(),
            last_place(pairs@, gid) == last_place(pairs@.subrange(0, i as int), gid),
        decreases i,
    {
        let ghost cur = pairs@.subrange(0, i as int);
        assert(cur.drop_last() =~= pairs@.subrange(0, i - 1));
        assert(cur.last() == pairs@[i - 1]);
        i -= 1;
        if pairs[i].0 == gid {
            return Some(i);
        }
    }
    assert(pairs@.subrange(0, 0) =~= Seq::empty());
    None
}

impl Acl {
    /// Gives every group of the groups table that has a parent that
    /// parent, in table order: see [`loaded_parents`]. A group that had a
    /// parent keeps its place in the list, so that the list holds no more
    /// pairs than groups were ever given a parent.
    pub fn load_groups(&mut self, db: &Site)
        ensures
            final(self).parent_list() == loaded_parents(old(self).parent_list(), db@.groups),
            final(self).group_list() == old(self).group_list(),
            final(self).user_list() == old(self).user_list(),
    {
        let mut i: usize = 0;
        assert(db@.groups.take(0) =~= Seq::empty());
        while i < db.groups.len()
            invariant
                i <= db.groups.len(),
                self.groups@ == loaded_parents(old(self).groups@, db@.groups.take(i as int)),
                self.group_rules@ == old(self).group_rules@,
                self.user_rules@ == old(self).user_rules@,
            decreases db.groups.len() - i,
        {
            proof {
                assert(db@.groups.take(i + 1).drop_last() =~= db@.groups.take(i as int));
                assert(db@.groups.take(i + 1).last() == db.groups@[i as int]@);
            }
            match db.groups[i].parent_id {
                Some(pid) => {
                    let gid = db.groups[i].id;
                    proof {
                        lemma_last_place(self.groups@, gid);
                    }
                    match place_of(&self.groups, gid) {
                        Some(k) => {
                            self.groups[k] = (gid, pid);
                        },
                        None => {
                            self.groups.push((gid, pid));
                        },
                    }
                },
                None => {},
            }
            i += 1;
        }
        assert(db@.groups.take(db.groups.len() as int) =~= db@.groups);
    }

    /// Puts the rules and the parents of the tables behind those loaded
    /// before.
    pub fn load(&mut self, db: &Site)
        ensures
            final(self).group_list() == old(self).group_list() + db@.group_rules,
            final(self).user_list() == old(self).user_list() + db@.user_rules,
            final(self).parent_list() == loaded_parents(old(self).parent_list(), db@.groups),
    {
        self.load_group_acls(db);
        self.load_user_acls(db);
        self.load_groups(db);
    }

    /// Puts a list of rules behind the rules of a list, so that each of
    /// them counts for its role in its namespace.
    pub fn load_list<T: Rule>(rules: Vec<T>, map: &mut Vec<T>)
        ensures
            final(map)@ == old(map)@ + rules@,
    {
        let mut rules = rules;
        map.append(&mut rules);
    }

    /// Forgets the rules, keeps the parents, and loads the tables.
    pub fn reload(&mut self, db: &Site)
        ensures
            final(self).group_list() == db@.group_rules,
            final(self).user_list() == db@.user_rules,
            final(self).parent_list() == loaded_parents(old(self).parent_list(), db@.groups),
    {
        self.group_rules.clear();
        self.user_rules.clear();
        self.load(db);
        assert(self.group_rules@ =~= db@.group_rules);
        assert(self.user_rules@ =~= db@.user_rules);
    }
}

/// Who asks for something: a user, its group, and the rules in force.
#[derive(Debug)]
pub struct UserSubject<'a> {
    pub user_id: &'a Uuid,
    pub group_id: &'a Uuid,
    pub acl: AclContainer,
}

/// One who may or may not do something to a `T`.
pub trait Subject<T> {
    /// Whether the subject may do `perm` to `obj`.
    spec fn permitted(&self, obj: &T, perm: Permission) -> bool;

    /// Whether the subject may read `obj`.
    fn may_read(&self, obj: &T) -> (r: bool)
        ensures
            r == self.permitted(obj, Permission::Read),
    {
        self.may(obj, &Permission::Read)
    }

    /// Whether the subject may change `obj`.
    fn may_write(&self, obj: &T) -> (r: bool)
        ensures
            r == self.permitted(obj, Permission::Write),
    {
        self.may(obj, &Permission::Write)
    }

    /// Whether the subject may make `obj`.
    fn may_create(&self, obj: &T) -> (r: bool)
        ensures
            r == self.permitted(obj, Permission::Create),
    {
        self.may(obj, &Permission::Create)
    }

    /// Whether the subject may delete `obj`.
    fn may_delete(&self, obj: &T) -> (r: bool)
        ensures
            r == self.permitted(obj, Permission::Delete),
    {
        self.may(obj, &Permission::Delete)
    }

    /// Whether the subject may do `perm` to `obj`.
    fn may(&self, obj: &T, perm: &Permission) -> (r: bool)
        ensures
            r == self.permitted(obj, *perm),
    ;
}

impl<'a> UserSubject<'a> {
    /// A subject.
    pub fn new(user_id: &'a Uuid, group_id: &'a Uuid, acl: AclContainer) -> (r: UserSubject<'a>)
        ensures
            r.user_id == user_id,
            r.group_id == group_id,
            r.acl == acl,
    {
        UserSubject { user_id, group_id, acl }
    }

    /// The rules that the subject is judged by.
    pub fn acl(&self) -> (r: &AclContainer)
        ensures
            *r == self.acl,
    {
        &self.acl
    }

    /// Whether the rules permit the subject `perm` in a namespace.
    pub open spec fn allowed_in(&self, ns: Seq<char>, perm: Permission) -> bool {
        user_may(
            self.acl.acl()@,
            *self.user_id,
            *self.group_id,
            ns,
            perm,
            self.acl.acl().depth(),
        )
    }
}

impl<'a> Subject<Torrent> for UserSubject<'a> {
    /// A user may do anything to a torrent of its own, and to another what
    /// the rules permit in `torrent`.
    open spec fn permitted(&self, obj: &Torrent, perm: Permission) -> bool {
        obj.user_id == Some(*self.user_id) || self.allowed_in("torrent"@, perm)
    }

    fn may(&self, obj: &Torrent, perm: &Permission) -> (r: bool) {
        match obj.user_id {
            Some(uid) => {
                if uid == *self.user_id {
                    return true;
                }
            },
            None => {},
        }
        self.acl.is_allowed(self.user_id, self.group_id, "torrent", perm)
    }
}

impl<'a> Subject<User> for UserSubject<'a> {
    /// A user may do anything to itself, and to another what the rules
    /// permit in `user`.
    open spec fn permitted(&self, obj: &User, perm: Permission) -> bool {
        obj.id == *self.user_id || self.allowed_in("user"@, perm)
    }

    fn may(&self, obj: &User, perm: &Permission) -> (r: bool) {
        if obj.id == *self.user_id {
            return true;
        }
        self.acl.is_allowed(self.user_id, self.group_id, "user", perm)
    }
}

} // verus!
