//! What the device says of a login session: the session's id, the challenge for
//! the next login, how long logins are blocked, and who may log in with which
//! rights.

use crate::challenge::{spec_challenge, spec_response, Challenge, ChallengeParseError, Response};
use crate::hexadecimal::{bytes_of_hex, decode_hex, encode_hex, hex_of_bytes, spells_bytes};
use crate::text::{parse_i32, parse_u32, same_text, spec_parse_i32, spec_parse_u32};
use crate::xml::{
    find_node_by_tag, find_text_by_tag, spec_child_texts, spec_find_node, spec_find_text,
    spec_has_children, string_views, Error, XmlDocument, XmlNodeView,
};
use vstd::prelude::*;
use vstd::string::StringSliceAdditionalSpecFns;

verus! {

/// The id of a login session: eight bytes. Eight zero bytes stand for no session.
#[derive(Debug, PartialEq, Eq, Clone, Copy, Hash)]
pub struct SessionId {
    pub id: [u8; 8],
}

/// Why a string is no session id.
#[derive(Debug, PartialEq, Eq, Structural, Clone, Copy, Hash)]
pub enum SessionIdParseError {
    /// The string is not eight bytes in hexadecimal digits.
    Id,
    /// The id is all zero, which no session has.
    Zero,
}

/// What a user may do in one area of the device.
#[derive(Debug, PartialEq, Eq, Structural, Clone, Copy, Hash)]
pub enum Permission {
    /// Written `1`.
    ReadOnly,
    /// Written `2`.
    ReadWrite,
}

/// Why a string is no permission.
#[derive(Debug, PartialEq, Eq, Structural, Clone, Copy, Hash)]
pub enum PermissionParseError {
    /// The string is no integer.
    Parse,
    /// The integer is neither 1 nor 2.
    OutOfRange,
}

/// A user's rights in the six areas of the device.
#[derive(Debug, PartialEq, Eq, Structural, Clone, Copy, Hash)]
pub struct Permissions {
    pub dial: Permission,
    pub app: Permission,
    pub home_auto: Permission,
    pub box_admin: Permission,
    pub phone: Permission,
    pub nas: Permission,
}

/// Why a list of rights is no set of permissions.
#[derive(Debug, PartialEq, Eq, Structural, Clone, Copy, Hash)]
pub enum PermissionsParseError {
    /// An entry of the list has no text.
    NoText,
    /// The list does not have twelve entries.
    Length,
    /// An area's name is not the expected one.
    PermissionName,
    /// An area's right is no permission.
    PermissionValue(PermissionParseError),
}

/// A user that may log in.
#[derive(Debug, PartialEq, Eq, Clone, Hash)]
pub struct User {
    /// Whether this user logged in last.
    pub is_last: bool,
    pub name: String,
}

/// The device's answer to a login request, with the session's id as it came.
#[derive(Debug, PartialEq, Eq, Clone)]
pub struct SessionInfo {
    /// The session's id; all zero where there is no session.
    pub session_id: SessionId,
    pub challenge: Challenge,
    /// For how many seconds logins are blocked.
    pub block_time: u64,
    pub users: Vec<User>,
}

/// The device's answer to a login request.
#[derive(Debug, PartialEq, Eq, Clone)]
pub struct LoginChallenge {
    /// The session's id, if there is a session.
    pub session_id: Option<SessionId>,
    pub challenge: Challenge,
    /// For how many seconds logins are blocked.
    pub block_time: u32,
    /// The rights of the session's user, if the device lists any.
    pub permissions: Option<Permissions>,
    /// The names of the users that may log in.
    pub users: Vec<String>,
}

/// Why a document is no answer to a login request.
#[derive(Debug, PartialEq, Eq, Clone, Copy, Hash)]
pub enum SessionResponseParseError {
    /// A node that every answer has is missing, or has no text.
    MissingNode(Error),
    /// A user's entry has no text.
    NoText,
    /// The rights are no set of permissions.
    Permissions(PermissionsParseError),
    /// The session id is not eight bytes in hexadecimal digits.
    SessionId(SessionIdParseError),
    /// The challenge is none.
    Challenge(ChallengeParseError),
    /// The block time is no `u32`.
    BlockTime,
    /// The text is no well-formed XML document.
    Xml,
}

/// A login challenge with its users' names as sequences of characters.
pub struct LoginChallengeView {
    pub session_id: Option<SessionId>,
    pub challenge: Challenge,
    pub block_time: u32,
    pub permissions: Option<Permissions>,
    pub users: Seq<Seq<char>>,
}

impl View for LoginChallenge {
    type V = LoginChallengeView;

    open spec fn view(&self) -> LoginChallengeView {
        LoginChallengeView {
            session_id: self.session_id,
            challenge: self.challenge,
            block_time: self.block_time,
            permissions: self.permissions,
            users: string_views(self.users@),
        }
    }
}

/// The right in the area `name`, read from the entry `index` of a list in which
/// names and rights take turns.
pub open spec fn spec_right(values: Seq<Seq<char>>, index: int, name: Seq<char>) -> Result<
    Permission,
    PermissionsParseError,
> {
    if values[2 * index] != name {
        Err(PermissionsParseError::PermissionName)
    } else {
        match spec_permission(values[2 * index + 1]) {
            Ok(permission) => Ok(permission),
            Err(e) => Err(PermissionsParseError::PermissionValue(e)),
        }
    }
}

/// The permissions that a list of twelve texts spells: the six areas by name in
/// their fixed order, each followed by its right. The first fault decides.
pub open spec fn spec_rights(values: Seq<Seq<char>>) -> Result<Permissions, PermissionsParseError> {
    let dial = spec_right(values, 0, "Dial"@);
    let app = spec_right(values, 1, "App"@);
    let home_auto = spec_right(values, 2, "HomeAuto"@);
    let box_admin = spec_right(values, 3, "BoxAdmin"@);
    let phone = spec_right(values, 4, "Phone"@);
    let nas = spec_right(values, 5, "NAS"@);
    if dial is Err {
        Err(dial->Err_0)
    } else if app is Err {
        Err(app->Err_0)
    } else if home_auto is Err {
        Err(home_auto->Err_0)
    } else if box_admin is Err {
        Err(box_admin->Err_0)
    } else if phone is Err {
        Err(phone->Err_0)
    } else if nas is Err {
        Err(nas->Err_0)
    } else {
        Ok(
            Permissions {
                dial: dial->Ok_0,
                app: app->Ok_0,
                home_auto: home_auto->Ok_0,
                box_admin: box_admin->Ok_0,
                phone: phone->Ok_0,
                nas: nas->Ok_0,
            },
        )
    }
}

/// The permissions that the node `rights` of a document lists: none where the
/// node is empty, else what the texts of its child elements spell.
pub open spec fn spec_permissions(nodes: Seq<XmlNodeView>, rights: int) -> Result<
    Option<Permissions>,
    PermissionsParseError,
> {
    if !spec_has_children(nodes, rights) {
        Ok(None)
    } else {
        match spec_child_texts(nodes, rights, None) {
            None => Err(PermissionsParseError::NoText),
            Some(values) => if values.len() != 12 {
                Err(PermissionsParseError::Length)
            } else {
                match spec_rights(values) {
                    Ok(permissions) => Ok(Some(permissions)),
                    Err(e) => Err(e),
                }
            },
        }
    }
}

/// The session id of an answer: none where the id is all zero.
pub open spec fn spec_optional_session_id(s: Seq<char>) -> Result<
    Option<SessionId>,
    SessionIdParseError,
> {
    match spec_session_id(s) {
        Ok(id) => Ok(Some(id)),
        Err(SessionIdParseError::Zero) => Ok(None),
        Err(e) => Err(e),
    }
}

/// The login challenge that a document holds. Below the root stands
/// `SessionInfo`, below that `SID`, `Challenge`, `BlockTime`, `Rights` and
/// `Users`. The nodes are looked up in that order, then read in that order; the
/// first fault decides.
pub open spec fn spec_login_challenge(nodes: Seq<XmlNodeView>) -> Result<
    LoginChallengeView,
    SessionResponseParseError,
> {
    match spec_find_node(nodes, 0, "SessionInfo"@) {
        None => Err(SessionResponseParseError::MissingNode(Error::FieldNotFound("SessionInfo"))),
        Some(info) => {
            let session_id = spec_find_text(nodes, info, "SID");
            let challenge = spec_find_text(nodes, info, "Challenge");
            let block_time = spec_find_text(nodes, info, "BlockTime");
            let rights = spec_find_node(nodes, info, "Rights"@);
            let users = spec_find_node(nodes, info, "Users"@);
            if session_id is Err {
                Err(SessionResponseParseError::MissingNode(session_id->Err_0))
            } else if challenge is Err {
                Err(SessionResponseParseError::MissingNode(challenge->Err_0))
            } else if block_time is Err {
                Err(SessionResponseParseError::MissingNode(block_time->Err_0))
            } else if rights is None {
                Err(SessionResponseParseError::MissingNode(Error::FieldNotFound("Rights")))
            } else if users is None {
                Err(SessionResponseParseError::MissingNode(Error::FieldNotFound("Users")))
            } else if spec_optional_session_id(session_id->Ok_0) is Err {
                Err(
                    SessionResponseParseError::SessionId(
                        spec_optional_session_id(session_id->Ok_0)->Err_0,
                    ),
                )
            } else if spec_challenge(challenge->Ok_0) is Err {
                Err(SessionResponseParseError::Challenge(spec_challenge(challenge->Ok_0)->Err_0))
            } else if spec_parse_u32(block_time->Ok_0) is None {
                Err(SessionResponseParseError::BlockTime)
            } else if spec_permissions(nodes, rights->Some_0) is Err {
                Err(
                    SessionResponseParseError::Permissions(
                        spec_permissions(nodes, rights->Some_0)->Err_0,
                    ),
                )
            } else if spec_child_texts(nodes, users->Some_0, Some("User"@)) is None {
                Err(SessionResponseParseError::NoText)
            } else {
                Ok(
                    LoginChallengeView {
                        session_id: spec_optional_session_id(session_id->Ok_0)->Ok_0,
                        challenge: spec_challenge(challenge->Ok_0)->Ok_0,
                        block_time: spec_parse_u32(block_time->Ok_0)->Some_0,
                        permissions: spec_permissions(nodes, rights->Some_0)->Ok_0,
                        users: spec_child_texts(nodes, users->Some_0, Some("User"@))->Some_0,
                    },
                )
            }
        },
    }
}

/// `result` is what `outcome` asks for: the login challenge with that view, or
/// that error.
pub open spec fn is_login_challenge(
    result: Result<LoginChallenge, SessionResponseParseError>,
    outcome: Result<LoginChallengeView, SessionResponseParseError>,
) -> bool {
    match outcome {
        Ok(view) => result matches Ok(login) && login@ == view,
        Err(e) => result matches Err(err) && err == e,
    }
}

/// Every byte of `bytes` is zero.
pub open spec fn all_zero(bytes: Seq<u8>) -> bool {
    forall|i: int| 0 <= i < bytes.len() ==> bytes[i] == 0
}

/// The session id that holds the eight bytes `bytes`.
pub open spec fn session_id_of(bytes: Seq<u8>) -> SessionId {
    SessionId { id: choose|id: [u8; 8]| id@ == bytes }
}

/// The session id that `s` spells: eight bytes in hexadecimal digits, not all of
/// them zero.
pub open spec fn spec_session_id(s: Seq<char>) -> Result<SessionId, SessionIdParseError> {
    if !spells_bytes(s, 8) {
        Err(SessionIdParseError::Id)
    } else if all_zero(bytes_of_hex(s)) {
        Err(SessionIdParseError::Zero)
    } else {
        Ok(session_id_of(bytes_of_hex(s)))
    }
}

/// A session id is the one that holds its bytes.
pub proof fn lemma_session_id_of(session: SessionId)
    ensures
        session_id_of(session.id@) == session,
{
    let chosen = session_id_of(session.id@);
    assert(chosen.id@ == session.id@);
    vstd::array::axiom_array_ext_equal(chosen.id, session.id);
    assert(chosen.id =~= session.id);
}

/// The permission that `s` spells: `1` or `2`, as any integer is written.
pub open spec fn spec_permission(s: Seq<char>) -> Result<Permission, PermissionParseError> {
    match spec_parse_i32(s) {
        None => Err(PermissionParseError::Parse),
        Some(1) => Ok(Permission::ReadOnly),
        Some(2) => Ok(Permission::ReadWrite),
        Some(_) => Err(PermissionParseError::OutOfRange),
    }
}

impl SessionId {
    pub open spec fn spec_is_valid(&self) -> bool {
        !all_zero(self.id@)
    }

    /// Whether the id stands for a session: not all of its bytes are zero.
    #[verifier::when_used_as_spec(spec_is_valid)]
    pub fn is_valid(&self) -> (valid: bool)
        ensures
            valid == self.spec_is_valid(),
    {
        let mut i: usize = 0;
        while i < 8
            invariant
                i <= 8,
                forall|k: int| 0 <= k < i ==> self.id@[k] == 0,
            decreases 8 - i,
        {
            if self.id[i] != 0 {
                return true;
            }
            i += 1;
        }
        false
    }

    /// Whether the two ids are the same eight bytes.
    pub fn same(&self, other: &SessionId) -> (same: bool)
        ensures
            same == (self.id@ == other.id@),
    {
        let mut i: usize = 0;
        while i < 8
            invariant
                i <= 8,
                forall|k: int| 0 <= k < i ==> self.id@[k] == other.id@[k],
            decreases 8 - i,
        {
            if self.id[i] != other.id[i] {
                return false;
            }
            i += 1;
        }
        assert(self.id@ =~= other.id@);
        true
    }

    /// Reads a session id from its sixteen hexadecimal digits. The id of no
    /// session, all zero, is refused.
    pub fn from_str(s: &str) -> (id: Result<SessionId, SessionIdParseError>)
        ensures
            id == spec_session_id(s@),
    {
        let id = match decode_hex::<8>(s) {
            Ok(id) => SessionId { id },
            Err(_) => {
                return Err(SessionIdParseError::Id);
            },
        };
        if !id.is_valid() {
            return Err(SessionIdParseError::Zero);
        }
        proof {
            lemma_session_id_of(id);
        }
        Ok(id)
    }

    /// The id in sixteen lower-case hexadecimal digits.
    pub fn to_string(&self) -> (text: String)
        ensures
            text@ == hex_of_bytes(self.id@),
    {
        encode_hex(self.id.as_slice())
    }
}

impl Permission {
    /// Reads a permission: `1` for read-only, `2` for read and write.
    pub fn from_str(s: &str) -> (permission: Result<Permission, PermissionParseError>)
        ensures
            permission == spec_permission(s@),
    {
        match parse_i32(s) {
            None => Err(PermissionParseError::Parse),
            Some(1) => Ok(Permission::ReadOnly),
            Some(2) => Ok(Permission::ReadWrite),
            Some(_) => Err(PermissionParseError::OutOfRange),
        }
    }
}

/// Reads the right in the area `name` from the entry `index` of a list in which
/// names and rights take turns.
fn right_at(values: &Vec<String>, index: usize, name: &str) -> (right: Result<
    Permission,
    PermissionsParseError,
>)
    requires
        index < 6,
        values@.len() == 12,
    ensures
        right == spec_right(string_views(values@), index as int, name@),
{
    if !same_text(values[2 * index].as_str(), name) {
        return Err(PermissionsParseError::PermissionName);
    }
    match Permission::from_str(values[2 * index + 1].as_str()) {
        Ok(permission) => Ok(permission),
        Err(e) => Err(PermissionsParseError::PermissionValue(e)),
    }
}

impl Permissions {
    /// Reads the permissions that the node `node` of a document lists.
    ///
    /// A node without children lists none. Otherwise its child elements spell,
    /// with their texts, the six areas in their fixed order, each followed by
    /// its right: `Dial`, `App`, `HomeAuto`, `BoxAdmin`, `Phone`, `NAS`.
    pub fn from_rights_node(doc: &XmlDocument, node: usize) -> (permissions: Result<
        Option<Permissions>,
        PermissionsParseError,
    >)
        ensures
            permissions == spec_permissions(doc@, node as int),
    {
        if !doc.has_children(node) {
            return Ok(None);
        }
        let values = match doc.child_texts(node, None) {
            Some(values) => values,
            None => {
                return Err(PermissionsParseError::NoText);
            },
        };
        if values.len() != 12 {
            return Err(PermissionsParseError::Length);
        }
        let dial = match right_at(&values, 0, "Dial") {
            Ok(right) => right,
            Err(e) => {
                return Err(e);
            },
        };
        let app = match right_at(&values, 1, "App") {
            Ok(right) => right,
            Err(e) => {
                return Err(e);
            },
        };
        let home_auto = match right_at(&values, 2, "HomeAuto") {
            Ok(right) => right,
            Err(e) => {
                return Err(e);
            },
        };
        let box_admin = match right_at(&values, 3, "BoxAdmin") {
            Ok(right) => right,
            Err(e) => {
                return Err(e);
            },
        };
        let phone = match right_at(&values, 4, "Phone") {
            Ok(right) => right,
            Err(e) => {
                return Err(e);
            },
        };
        let nas = match right_at(&values, 5, "NAS") {
            Ok(right) => right,
            Err(e) => {
                return Err(e);
            },
        };
        Ok(Some(Permissions { dial, app, home_auto, box_admin, phone, nas }))
    }
}

impl SessionInfo {
    /// Whether a user of that name may log in.
    pub open spec fn spec_has_user(&self, username: &str) -> bool {
        exists|i: int| 0 <= i < self.users@.len() && (#[trigger] self.users@[i]).name@ == username@
    }

    /// The response that `password` earns for the session's challenge.
    pub fn make_response(&self, password: &str) -> (response: Response)
        ensures
            (response.salt@, response.hash@) == spec_response(
                self.challenge,
                password.spec_bytes(),
            ),
    {
        self.challenge.make_response(password)
    }

    /// Whether a user of that name may log in.
    #[verifier::when_used_as_spec(spec_has_user)]
    pub fn has_user(&self, username: &str) -> (found: bool)
        ensures
            found == self.spec_has_user(username),
    {
        let mut i: usize = 0;
        while i < self.users.len()
            invariant
                i <= self.users.len(),
                forall|k: int| 0 <= k < i ==> (#[trigger] self.users@[k]).name@ != username@,
            decreases self.users.len() - i,
        {
            if same_text(self.users[i].name.as_str(), username) {
                return true;
            }
            i += 1;
        }
        false
    }
}

impl LoginChallenge {
    /// Reads the login challenge that the text of an XML document holds.
    pub fn from_xml_text(xml: &str) -> (login: Result<LoginChallenge, SessionResponseParseError>)
        ensures
            is_login_challenge(
                login,
                match crate::xml::xml_nodes(xml@) {
                    Some(nodes) => spec_login_challenge(nodes),
                    None => Err(SessionResponseParseError::Xml),
                },
            ),
    {
        match XmlDocument::parse(xml) {
            Ok(doc) => LoginChallenge::from_xml(&doc),
            Err(_) => Err(SessionResponseParseError::Xml),
        }
    }

    /// Reads the login challenge that a document holds: below the root the node
    /// `SessionInfo`, and below that `SID`, `Challenge`, `BlockTime`, `Rights`
    /// and `Users`.
    ///
    /// A session id that is all zero stands for no session.
    pub fn from_xml(doc: &XmlDocument) -> (login: Result<LoginChallenge, SessionResponseParseError>)
        ensures
            is_login_challenge(login, spec_login_challenge(doc@)),
    {
        let info = match find_node_by_tag(doc, doc.root(), "SessionInfo") {
            Ok(node) => node,
            Err(e) => {
                return Err(SessionResponseParseError::MissingNode(e));
            },
        };
        let session_id = match find_text_by_tag(doc, info, "SID") {
            Ok(text) => text,
            Err(e) => {
                return Err(SessionResponseParseError::MissingNode(e));
            },
        };
        let challenge = match find_text_by_tag(doc, info, "Challenge") {
            Ok(text) => text,
            Err(e) => {
                return Err(SessionResponseParseError::MissingNode(e));
            },
        };
        let block_time = match find_text_by_tag(doc, info, "BlockTime") {
            Ok(text) => text,
            Err(e) => {
                return Err(SessionResponseParseError::MissingNode(e));
            },
        };
        let rights = match find_node_by_tag(doc, info, "Rights") {
            Ok(node) => node,
            Err(e) => {
                return Err(SessionResponseParseError::MissingNode(e));
            },
        };
        let users = match find_node_by_tag(doc, info, "Users") {
            Ok(node) => node,
            Err(e) => {
                return Err(SessionResponseParseError::MissingNode(e));
            },
        };
        let session_id = match SessionId::from_str(session_id) {
            Ok(id) => Some(id),
            Err(SessionIdParseError::Zero) => None,
            Err(e) => {
                return Err(SessionResponseParseError::SessionId(e));
            },
        };
        let challenge = match Challenge::from_str(challenge) {
            Ok(challenge) => challenge,
            Err(e) => {
                return Err(SessionResponseParseError::Challenge(e));
            },
        };
        let block_time = match parse_u32(block_time) {
            Some(seconds) => seconds,
            None => {
                return Err(SessionResponseParseError::BlockTime);
            },
        };
        let permissions = match Permissions::from_rights_node(doc, rights) {
            Ok(permissions) => permissions,
            Err(e) => {
                return Err(SessionResponseParseError::Permissions(e));
            },
        };
        let users = match doc.child_texts(users, Some("User")) {
            Some(names) => names,
            None => {
                return Err(SessionResponseParseError::NoText);
            },
        };
        Ok(LoginChallenge { session_id, challenge, block_time, permissions, users })
    }

    /// Whether a user of that name may log in.
    pub open spec fn spec_has_user(&self, username: &str) -> bool {
        exists|i: int| 0 <= i < self.users@.len() && (#[trigger] self.users@[i])@ == username@
    }

    /// The response that `password` earns for the challenge.
    pub fn make_response(&self, password: &str) -> (response: Response)
        ensures
            (response.salt@, response.hash@) == spec_response(
                self.challenge,
                password.spec_bytes(),
            ),
    {
        self.challenge.make_response(password)
    }

    /// Whether a user of that name may log in.
    #[verifier::when_used_as_spec(spec_has_user)]
    pub fn has_user(&self, username: &str) -> (found: bool)
        ensures
            found == self.spec_has_user(username),
    {
        let mut i: usize = 0;
        while i < self.users.len()
            invariant
                i <= self.users.len(),
                forall|k: int| 0 <= k < i ==> (#[trigger] self.users@[k])@ != username@,
            decreases self.users.len() - i,
        {
            if same_text(self.users[i].as_str(), username) {
                return true;
            }
            i += 1;
        }
        false
    }
}

} // verus!
