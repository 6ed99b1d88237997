//! Users, servers, roles and members, as far as decisions depend on them.
use crate::channels::OverrideField;
use crate::patch::{self, renew, renew_opt_text, renew_text, renew_texts};
use crate::table::{self, copy_rows, KeyedRow, Row};
use crate::text::{self, copy_opt, copy_opt_texts, copy_texts, same};
use vstd::prelude::*;

verus! {

/// How a user relates to another.
#[derive(Clone, Copy, Debug, PartialEq, Eq)]
pub enum RelationshipStatus {
    /// Not at all.
    Unrelated,
    /// The other is the user themself.
    User,
    /// Friends.
    Friend,
    /// The user asked to be friends.
    Outgoing,
    /// The other asked to be friends.
    Incoming,
    /// The user blocked the other.
    Blocked,
    /// The other blocked the user.
    BlockedOther,
}

/// How a user appears to others.
#[derive(Clone, Copy, Debug, PartialEq, Eq)]
pub enum Presence {
    Online,
    Idle,
    Focus,
    Busy,
    Invisible,
}

/// A relationship to another user.
#[derive(Debug, PartialEq, Eq)]
pub struct Relationship {
    pub id: String,
    pub status: RelationshipStatus,
}

/// What a [`Relationship`] holds.
pub struct RelationshipView {
    pub id: Seq<char>,
    pub status: RelationshipStatus,
}

impl View for Relationship {
    type V = RelationshipView;

    open spec fn view(&self) -> RelationshipView {
        RelationshipView {
            id: self.id@,
            status: self.status,
        }
    }
}

impl Row for Relationship {
    fn dup(&self) -> (r: Self) {
        Relationship {
            id: self.id.clone(),
            status: self.status,
        }
    }
}

impl KeyedRow for Relationship {
    open spec fn id_of(v: RelationshipView) -> Seq<char> {
        v.id
    }

    fn id_is(&self, id: &str) -> (r: bool) {
        same(self.id.as_str(), id)
    }
}

/// A user.
#[derive(Debug, PartialEq, Eq)]
pub struct User {
    pub id: String,
    pub username: String,
    /// Id of the file with the picture.
    pub avatar: Option<String>,
    pub relations: Vec<Relationship>,
    pub bot: bool,
    pub presence: Option<Presence>,
    pub last_acknowledged_policy_change: i64,
    /// The other fields, in their encoded form.
    pub other: String,
}

/// What a [`User`] holds.
pub struct UserView {
    pub id: Seq<char>,
    pub username: Seq<char>,
    pub avatar: Option<Seq<char>>,
    pub relations: Seq<RelationshipView>,
    pub bot: bool,
    pub presence: Option<Presence>,
    pub last_acknowledged_policy_change: i64,
    pub other: Seq<char>,
}

impl View for User {
    type V = UserView;

    open spec fn view(&self) -> UserView {
        UserView {
            id: self.id@,
            username: self.username@,
            avatar: text::opt_text(self.avatar),
            relations: table::row_views(self.relations@),
            bot: self.bot,
            presence: self.presence,
            last_acknowledged_policy_change: self.last_acknowledged_policy_change,
            other: self.other@,
        }
    }
}

impl Row for User {
    fn dup(&self) -> (r: Self) {
        User {
            id: self.id.clone(),
            username: self.username.clone(),
            avatar: copy_opt(&self.avatar),
            relations: copy_rows(&self.relations),
            bot: self.bot,
            presence: self.presence,
            last_acknowledged_policy_change: self.last_acknowledged_policy_change,
            other: self.other.clone(),
        }
    }
}

impl KeyedRow for User {
    open spec fn id_of(v: UserView) -> Seq<char> {
        v.id
    }

    fn id_is(&self, id: &str) -> (r: bool) {
        same(self.id.as_str(), id)
    }
}

/// A role of a server.
#[derive(Debug, PartialEq, Eq)]
pub struct Role {
    pub id: String,
    pub name: String,
    pub rank: i64,
    pub permissions: OverrideField,
    pub colour: Option<String>,
    /// The other fields, in their encoded form: as they were at first, then each update.
    pub other: Vec<String>,
}

/// What a [`Role`] holds.
pub struct RoleView {
    pub id: Seq<char>,
    pub name: Seq<char>,
    pub rank: i64,
    pub permissions: OverrideField,
    pub colour: Option<Seq<char>>,
    pub other: Seq<Seq<char>>,
}

impl View for Role {
    type V = RoleView;

    open spec fn view(&self) -> RoleView {
        RoleView {
            id: self.id@,
            name: self.name@,
            rank: self.rank,
            permissions: self.permissions,
            colour: text::opt_text(self.colour),
            other: text::texts(self.other@),
        }
    }
}

impl Row for Role {
    fn dup(&self) -> (r: Self) {
        Role {
            id: self.id.clone(),
            name: self.name.clone(),
            rank: self.rank,
            permissions: self.permissions,
            colour: copy_opt(&self.colour),
            other: copy_texts(&self.other),
        }
    }
}

impl KeyedRow for Role {
    open spec fn id_of(v: RoleView) -> Seq<char> {
        v.id
    }

    fn id_is(&self, id: &str) -> (r: bool) {
        same(self.id.as_str(), id)
    }
}

/// A server.
#[derive(Debug, PartialEq, Eq)]
pub struct Server {
    pub id: String,
    pub owner: String,
    pub name: String,
    pub description: Option<String>,
    pub channels: Vec<String>,
    pub roles: Vec<Role>,
    pub default_permissions: i64,
    /// The other fields, in their encoded form: as they were at first, then each update.
    pub other: Vec<String>,
}

/// What a [`Server`] holds.
pub struct ServerView {
    pub id: Seq<char>,
    pub owner: Seq<char>,
    pub name: Seq<char>,
    pub description: Option<Seq<char>>,
    pub channels: Seq<Seq<char>>,
    pub roles: Seq<RoleView>,
    pub default_permissions: i64,
    pub other: Seq<Seq<char>>,
}

impl View for Server {
    type V = ServerView;

    open spec fn view(&self) -> ServerView {
        ServerView {
            id: self.id@,
            owner: self.owner@,
            name: self.name@,
            description: text::opt_text(self.description),
            channels: text::texts(self.channels@),
            roles: table::row_views(self.roles@),
            default_permissions: self.default_permissions,
            other: text::texts(self.other@),
        }
    }
}

impl Row for Server {
    fn dup(&self) -> (r: Self) {
        Server {
            id: self.id.clone(),
            owner: self.owner.clone(),
            name: self.name.clone(),
            description: copy_opt(&self.description),
            channels: copy_texts(&self.channels),
            roles: copy_rows(&self.roles),
            default_permissions: self.default_permissions,
            other: copy_texts(&self.other),
        }
    }
}

impl KeyedRow for Server {
    open spec fn id_of(v: ServerView) -> Seq<char> {
        v.id
    }

    fn id_is(&self, id: &str) -> (r: bool) {
        same(self.id.as_str(), id)
    }
}

/// New values for some fields of a server.
#[derive(Debug, PartialEq, Eq)]
pub struct PartialServer {
    pub owner: Option<String>,
    pub name: Option<String>,
    pub description: Option<String>,
    pub channels: Option<Vec<String>>,
    pub default_permissions: Option<i64>,
    /// What else is set or unset, in encoded form.
    pub other: Option<String>,
}

/// What a [`PartialServer`] holds.
pub struct PartialServerView {
    pub owner: Option<Seq<char>>,
    pub name: Option<Seq<char>>,
    pub description: Option<Seq<char>>,
    pub channels: Option<Seq<Seq<char>>>,
    pub default_permissions: Option<i64>,
    pub other: Option<Seq<char>>,
}

impl View for PartialServer {
    type V = PartialServerView;

    open spec fn view(&self) -> PartialServerView {
        PartialServerView {
            owner: text::opt_text(self.owner),
            name: text::opt_text(self.name),
            description: text::opt_text(self.description),
            channels: text::opt_texts(self.channels),
            default_permissions: self.default_permissions,
            other: text::opt_text(self.other),
        }
    }
}

impl Row for PartialServer {
    fn dup(&self) -> (r: Self) {
        PartialServer {
            owner: copy_opt(&self.owner),
            name: copy_opt(&self.name),
            description: copy_opt(&self.description),
            channels: copy_opt_texts(&self.channels),
            default_permissions: self.default_permissions,
            other: copy_opt(&self.other),
        }
    }
}

/// No new values.
pub open spec fn no_server_changes() -> PartialServerView {
    PartialServerView {
        owner: None,
        name: None,
        description: None,
        channels: None,
        default_permissions: None,
        other: None,
    }
}

impl Default for PartialServer {
    /// No new values.
    fn default() -> (r: Self)
        ensures
            r@ == no_server_changes(),
    {
        PartialServer {
            owner: None,
            name: None,
            description: None,
            channels: None,
            default_permissions: None,
            other: None,
        }
    }
}

/// New values for some fields of a role.
#[derive(Debug, PartialEq, Eq, Default)]
pub struct PartialRole {
    pub name: Option<String>,
    pub rank: Option<i64>,
    pub permissions: Option<OverrideField>,
    pub colour: Option<String>,
    /// What else is set or unset, in encoded form.
    pub other: Option<String>,
}

/// What a [`PartialRole`] holds.
pub struct PartialRoleView {
    pub name: Option<Seq<char>>,
    pub rank: Option<i64>,
    pub permissions: Option<OverrideField>,
    pub colour: Option<Seq<char>>,
    pub other: Option<Seq<char>>,
}

impl View for PartialRole {
    type V = PartialRoleView;

    open spec fn view(&self) -> PartialRoleView {
        PartialRoleView {
            name: text::opt_text(self.name),
            rank: self.rank,
            permissions: self.permissions,
            colour: text::opt_text(self.colour),
            other: text::opt_text(self.other),
        }
    }
}

impl Row for PartialRole {
    fn dup(&self) -> (r: Self) {
        PartialRole {
            name: copy_opt(&self.name),
            rank: self.rank,
            permissions: self.permissions,
            colour: copy_opt(&self.colour),
            other: copy_opt(&self.other),
        }
    }
}

/// A member of a server: who belongs to which, with which roles.
#[derive(Debug, PartialEq, Eq)]
pub struct Member {
    pub server: String,
    pub user: String,
    pub nickname: Option<String>,
    pub roles: Vec<String>,
    /// The other fields, in their encoded form: as they were at first, then each update.
    pub other: Vec<String>,
}

/// What a [`Member`] holds.
pub struct MemberView {
    pub server: Seq<char>,
    pub user: Seq<char>,
    pub nickname: Option<Seq<char>>,
    pub roles: Seq<Seq<char>>,
    pub other: Seq<Seq<char>>,
}

impl View for Member {
    type V = MemberView;

    open spec fn view(&self) -> MemberView {
        MemberView {
            server: self.server@,
            user: self.user@,
            nickname: text::opt_text(self.nickname),
            roles: text::texts(self.roles@),
            other: text::texts(self.other@),
        }
    }
}

impl Row for Member {
    fn dup(&self) -> (r: Self) {
        Member {
            server: self.server.clone(),
            user: self.user.clone(),
            nickname: copy_opt(&self.nickname),
            roles: copy_texts(&self.roles),
            other: copy_texts(&self.other),
        }
    }
}

impl KeyedRow for Member {
    open spec fn id_of(v: MemberView) -> Seq<char> {
        v.server
    }

    fn id_is(&self, id: &str) -> (r: bool) {
        same(self.server.as_str(), id)
    }
}

/// New values for some fields of a member.
#[derive(Debug, PartialEq, Eq, Default)]
pub struct PartialMember {
    pub nickname: Option<String>,
    pub roles: Option<Vec<String>>,
    /// What else is set or unset, in encoded form.
    pub other: Option<String>,
}

/// What a [`PartialMember`] holds.
pub struct PartialMemberView {
    pub nickname: Option<Seq<char>>,
    pub roles: Option<Seq<Seq<char>>>,
    pub other: Option<Seq<char>>,
}

impl View for PartialMember {
    type V = PartialMemberView;

    open spec fn view(&self) -> PartialMemberView {
        PartialMemberView {
            nickname: text::opt_text(self.nickname),
            roles: text::opt_texts(self.roles),
            other: text::opt_text(self.other),
        }
    }
}

impl Row for PartialMember {
    fn dup(&self) -> (r: Self) {
        PartialMember {
            nickname: copy_opt(&self.nickname),
            roles: copy_opt_texts(&self.roles),
            other: copy_opt(&self.other),
        }
    }
}

/// New values for some fields of a user.
#[derive(Debug, PartialEq, Eq, Default)]
pub struct PartialUser {
    /// Whether the user is online.
    pub online: Option<bool>,
    /// The other fields, in their encoded form.
    pub other: Option<String>,
}

/// What a [`PartialUser`] holds.
pub struct PartialUserView {
    pub online: Option<bool>,
    pub other: Option<Seq<char>>,
}

impl View for PartialUser {
    type V = PartialUserView;

    open spec fn view(&self) -> PartialUserView {
        PartialUserView { online: self.online, other: text::opt_text(self.other) }
    }
}

impl Row for PartialUser {
    fn dup(&self) -> (r: Self) {
        PartialUser { online: self.online, other: copy_opt(&self.other) }
    }
}

/// Fields of a server that can be unset. Others are told of with the new values.
#[derive(Clone, Copy, Debug, PartialEq, Eq)]
pub enum FieldsServer {
    Description,
}

/// Fields of a role that can be unset. Others are told of with the new values.
#[derive(Clone, Copy, Debug, PartialEq, Eq)]
pub enum FieldsRole {
    Colour,
}

/// Fields of a member that can be unset. Others are told of with the new values.
#[derive(Clone, Copy, Debug, PartialEq, Eq)]
pub enum FieldsMember {
    Nickname,
    Roles,
}

/// How a user relates to another.
pub open spec fn relationship(user: UserView, other: Seq<char>) -> RelationshipStatus {
    if user.id == other {
        RelationshipStatus::User
    } else if table::has_id::<Relationship>(user.relations, other) {
        table::row_of::<Relationship>(user.relations, other).status
    } else {
        RelationshipStatus::Unrelated
    }
}

impl User {
    /// How this user relates to another.
    pub fn relationship_with(&self, other: &str) -> (r: RelationshipStatus)
        ensures
            r == relationship(self@, other@),
    {
        if same(self.id.as_str(), other) {
            return RelationshipStatus::User;
        }
        let ghost q = table::with_id::<Relationship>(other@);
        let mut i: usize = 0;
        while i < self.relations.len()
            invariant
                i <= self.relations.len(),
                self.id@ != other@,
                q == table::with_id::<Relationship>(other@),
                forall|j: int| 0 <= j < i ==> !q(#[trigger] self@.relations[j]),
            decreases self.relations.len() - i,
        {
            if same(self.relations[i].id.as_str(), other) {
                proof {
                    assert(q(self@.relations[i as int]));
                    table::lemma_first_row(self@.relations, q, i as int);
                }
                return self.relations[i].status;
            }
            i = i + 1;
        }
        RelationshipStatus::Unrelated
    }
}

/// Encoded fields, once they were updated.
pub open spec fn other_with(other: Seq<Seq<char>>, update: Option<Seq<char>>) -> Seq<Seq<char>> {
    match update {
        Some(update) => other.push(update),
        None => other,
    }
}

fn update_other(other: &mut Vec<String>, update: Option<String>)
    ensures
        text::texts(final(other)@) == other_with(
            text::texts(old(other)@),
            text::opt_text(update),
        ),
{
    if let Some(update) = update {
        let ghost before = other@;
        other.push(update);
        assert(text::texts(other@) =~= text::texts(before).push(update@));
    }
}

/// A server with fields unset.
pub open spec fn server_without(server: ServerView, fields: Seq<FieldsServer>) -> ServerView {
    if fields.len() > 0 {
        ServerView { description: None, ..server }
    } else {
        server
    }
}

/// A server with new values.
pub open spec fn server_with(server: ServerView, p: PartialServerView) -> ServerView {
    ServerView {
        owner: patch::pick(p.owner, server.owner),
        name: patch::pick(p.name, server.name),
        description: patch::pick_opt(p.description, server.description),
        channels: patch::pick(p.channels, server.channels),
        default_permissions: patch::pick(p.default_permissions, server.default_permissions),
        other: other_with(server.other, p.other),
        ..server
    }
}

impl Server {
    /// Unsets fields.
    pub fn remove_fields(&mut self, fields: &Vec<FieldsServer>)
        ensures
            final(self)@ == server_without(old(self)@, fields@),
    {
        if fields.len() > 0 {
            self.description = None;
        }
    }

    /// Applies new values.
    pub fn apply_options(&mut self, partial: PartialServer)
        ensures
            final(self)@ == server_with(old(self)@, partial@),
    {
        renew_text(&mut self.owner, partial.owner);
        renew_text(&mut self.name, partial.name);
        renew_opt_text(&mut self.description, partial.description);
        renew_texts(&mut self.channels, partial.channels);
        renew(&mut self.default_permissions, partial.default_permissions);
        update_other(&mut self.other, partial.other);
    }
}

/// A role with fields unset.
pub open spec fn role_without(role: RoleView, fields: Seq<FieldsRole>) -> RoleView {
    if fields.len() > 0 {
        RoleView { colour: None, ..role }
    } else {
        role
    }
}

/// A role with new values.
pub open spec fn role_with(role: RoleView, p: PartialRoleView) -> RoleView {
    RoleView {
        name: patch::pick(p.name, role.name),
        rank: patch::pick(p.rank, role.rank),
        permissions: patch::pick(p.permissions, role.permissions),
        colour: patch::pick_opt(p.colour, role.colour),
        other: other_with(role.other, p.other),
        ..role
    }
}

impl Role {
    /// Unsets fields.
    pub fn remove_fields(&mut self, fields: &Vec<FieldsRole>)
        ensures
            final(self)@ == role_without(old(self)@, fields@),
    {
        if fields.len() > 0 {
            self.colour = None;
        }
    }

    /// Applies new values.
    pub fn apply_options(&mut self, partial: PartialRole)
        ensures
            final(self)@ == role_with(old(self)@, partial@),
    {
        renew_text(&mut self.name, partial.name);
        renew(&mut self.rank, partial.rank);
        renew(&mut self.permissions, partial.permissions);
        renew_opt_text(&mut self.colour, partial.colour);
        update_other(&mut self.other, partial.other);
    }
}

/// A member with a field unset.
pub open spec fn member_without_field(member: MemberView, field: FieldsMember) -> MemberView {
    match field {
        FieldsMember::Nickname => MemberView { nickname: None, ..member },
        FieldsMember::Roles => MemberView { roles: Seq::empty(), ..member },
    }
}

/// A member with fields unset, one after the other.
pub open spec fn member_without(member: MemberView, fields: Seq<FieldsMember>) -> MemberView
    decreases fields.len(),
{
    if fields.len() == 0 {
        member
    } else {
        member_without_field(member_without(member, fields.drop_last()), fields.last())
    }
}

/// A member with new values.
pub open spec fn member_with(member: MemberView, p: PartialMemberView) -> MemberView {
    MemberView {
        nickname: patch::pick_opt(p.nickname, member.nickname),
        roles: patch::pick(p.roles, member.roles),
        other: other_with(member.other, p.other),
        ..member
    }
}

impl Member {
    /// Unsets fields.
    pub fn remove_fields(&mut self, fields: &Vec<FieldsMember>)
        ensures
            final(self)@ == member_without(old(self)@, fields@),
    {
        let mut i: usize = 0;
        assert(fields@.take(0) =~= Seq::<FieldsMember>::empty());
        while i < fields.len()
            invariant
                i <= fields.len(),
                self@ == member_without(old(self)@, fields@.take(i as int)),
            decreases fields.len() - i,
        {
            assert(fields@.take(i + 1).drop_last() =~= fields@.take(i as int));
            match fields[i] {
                FieldsMember::Nickname => {
                    self.nickname = None;
                },
                FieldsMember::Roles => {
                    self.roles = Vec::new();
                    assert(text::texts(self.roles@) =~= Seq::<Seq<char>>::empty());
                },
            }
            i = i + 1;
        }
        assert(fields@.take(i as int) =~= fields@);
    }

    /// Applies new values.
    pub fn apply_options(&mut self, partial: PartialMember)
        ensures
            final(self)@ == member_with(old(self)@, partial@),
    {
        renew_opt_text(&mut self.nickname, partial.nickname);
        renew_texts(&mut self.roles, partial.roles);
        update_other(&mut self.other, partial.other);
    }
}

/// How a user relates to another is what the user's list says, the user themself apart; who
/// is not on it is not related.
pub proof fn law_relationship_is_what_the_list_says(user: UserView, other: Seq<char>, i: int)
    requires
        table::keyed::<Relationship>(user.relations),
    ensures
        user.id == other ==> relationship(user, other) == RelationshipStatus::User,
        user.id != other && 0 <= i < user.relations.len() && user.relations[i].id == other
            ==> relationship(user, other) == user.relations[i].status,
        user.id != other && (forall|k: int|
            0 <= k < user.relations.len() ==> (#[trigger] user.relations[k]).id != other)
            ==> relationship(user, other) == RelationshipStatus::Unrelated,
{
    if 0 <= i < user.relations.len() && user.relations[i].id == other {
        table::lemma_keyed_row::<Relationship>(user.relations, other, i);
    }
    if table::has_id::<Relationship>(user.relations, other) {
        table::lemma_first_row_matches(user.relations, table::with_id::<Relationship>(other));
    }
}

/// A server and a role have what an update gives, and else what they had; unsetting takes
/// away what can be unset.
pub proof fn law_updates_are_taken_over(
    server: ServerView,
    s: PartialServerView,
    server_fields: Seq<FieldsServer>,
    role: RoleView,
    r: PartialRoleView,
    role_fields: Seq<FieldsRole>,
)
    ensures
        ({
            let a = server_with(server, s);
            &&& a.id == server.id && a.roles == server.roles
            &&& s.owner matches Some(v) ==> a.owner == v
            &&& s.owner is None ==> a.owner == server.owner
            &&& s.name matches Some(v) ==> a.name == v
            &&& s.name is None ==> a.name == server.name
            &&& s.description is Some ==> a.description == s.description
            &&& s.description is None ==> a.description == server.description
            &&& s.channels matches Some(v) ==> a.channels == v
            &&& s.channels is None ==> a.channels == server.channels
            &&& s.default_permissions matches Some(v) ==> a.default_permissions == v
            &&& s.default_permissions is None ==> a.default_permissions
                == server.default_permissions
        }),
        ({
            let b = role_with(role, r);
            &&& b.id == role.id
            &&& r.name matches Some(v) ==> b.name == v
            &&& r.name is None ==> b.name == role.name
            &&& r.rank matches Some(v) ==> b.rank == v
            &&& r.rank is None ==> b.rank == role.rank
            &&& r.permissions matches Some(v) ==> b.permissions == v
            &&& r.permissions is None ==> b.permissions == role.permissions
            &&& r.colour is Some ==> b.colour == r.colour
            &&& r.colour is None ==> b.colour == role.colour
        }),
        server_fields.contains(FieldsServer::Description) ==> server_without(
            server,
            server_fields,
        ).description is None,
        server_fields.len() == 0 ==> server_without(server, server_fields) == server,
        role_fields.contains(FieldsRole::Colour) ==> role_without(role, role_fields).colour is None,
        role_fields.len() == 0 ==> role_without(role, role_fields) == role,
{
}

/// A member has what an update gives, and else what they had.
pub proof fn law_member_update_is_taken_over(member: MemberView, p: PartialMemberView)
    ensures
        ({
            let a = member_with(member, p);
            &&& a.server == member.server && a.user == member.user
            &&& p.nickname is Some ==> a.nickname == p.nickname
            &&& p.nickname is None ==> a.nickname == member.nickname
            &&& p.roles matches Some(v) ==> a.roles == v
            &&& p.roles is None ==> a.roles == member.roles
        }),
{
}

} // verus!
