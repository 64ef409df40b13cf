//! Normalisation of a router's log feed and its incremental merge into a
//! persisted, deduplicated history, with the login challenge that the router
//! asks to be answered before it hands out its log.

pub mod annotation;
pub mod challenge;
pub mod driver;
pub mod hexadecimal;
pub mod internet;
pub mod laws;
pub mod log_entry;
pub mod log_msg;
pub mod merge;
pub mod normalize;
pub mod pattern;
pub mod record;
pub mod session;
pub mod store;
pub mod text;
pub mod xml;

pub use challenge::{Challenge, ChallengeParseError, Pbkdf2Params, Response};
pub use internet::{
    ConnectedDetails, DslReadyDeatils, InternetMsg, ParseConnectedDetailsError,
    ParseDslReadyDetailsError,
};
pub use log_entry::{LogEntry, ParseEntryError};
pub use log_msg::{
    FromLogEntry, FromLogMsg, LogMsg, ParseLogMsgError, PhoneMsg, SystemMsg, UsbMsg, WlanMsg,
};
pub use merge::{plan_merge, MergeError, MergePlan, StoreError};
pub use normalize::{
    normalize, parse_datetime, resolve_datetime, NormalizeError, NumericField, ParseLogError,
    RawLogEntry, RepetitionFault,
};
pub use record::{parse_repetition, IdentityKey, InvalidRepetition, Log, LogRow, Repetition};
pub use session::{
    LoginChallenge, Permission, PermissionParseError, Permissions, PermissionsParseError,
    SessionId, SessionIdParseError, SessionInfo, SessionResponseParseError, User,
};
pub use store::LogStore;
pub use xml::{find_node_by_tag, find_text_by_tag, XmlDocument, XmlNode, XmlSyntaxError};
