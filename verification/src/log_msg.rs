//! A log message by its category: system, internet connection, telephony, WLAN
//! or USB devices.

use crate::internet::{spec_internet_msg, spec_trim, InternetMsg};
use crate::normalize::RawLogEntry;
use crate::text::{parse_i64, spec_parse_i64};
use vstd::prelude::*;

verus! {

/// A kind of message that can be read from a message's text.
pub trait FromLogMsg: Sized {
    type Err;

    fn from_log_msg(msg: &str) -> Result<Self, Self::Err>;
}

/// A kind of message that can be read from a raw entry of the feed.
pub trait FromLogEntry: Sized {
    type Err;

    fn from_log_entry(entry: &RawLogEntry) -> Result<Self, Self::Err>;
}

/// A message of the category "Telefonie".
#[derive(Debug, PartialEq, Eq, Structural, Clone, Copy, Hash)]
pub enum PhoneMsg {
    Unknown,
}

/// A message of the category "System".
#[derive(Debug, PartialEq, Eq, Structural, Clone, Copy, Hash)]
pub enum SystemMsg {
    Unknown,
}

/// A message of the category "USB-Geräte".
#[derive(Debug, PartialEq, Eq, Structural, Clone, Copy, Hash)]
pub enum UsbMsg {
    Unknown,
}

/// A message of the category "WLAN".
#[derive(Debug, PartialEq, Eq, Structural, Clone, Copy, Hash)]
pub enum WlanMsg {
    Unknown,
}

impl FromLogMsg for PhoneMsg {
    type Err = ();

    fn from_log_msg(msg: &str) -> (parsed: Result<PhoneMsg, ()>)
        ensures
            parsed == Ok::<PhoneMsg, ()>(PhoneMsg::Unknown),
    {
        Ok(PhoneMsg::Unknown)
    }
}

impl FromLogMsg for SystemMsg {
    type Err = ();

    fn from_log_msg(msg: &str) -> (parsed: Result<SystemMsg, ()>)
        ensures
            parsed == Ok::<SystemMsg, ()>(SystemMsg::Unknown),
    {
        Ok(SystemMsg::Unknown)
    }
}

impl FromLogMsg for UsbMsg {
    type Err = ();

    fn from_log_msg(msg: &str) -> (parsed: Result<UsbMsg, ()>)
        ensures
            parsed == Ok::<UsbMsg, ()>(UsbMsg::Unknown),
    {
        Ok(UsbMsg::Unknown)
    }
}

impl FromLogMsg for WlanMsg {
    type Err = ();

    fn from_log_msg(msg: &str) -> (parsed: Result<WlanMsg, ()>)
        ensures
            parsed == Ok::<WlanMsg, ()>(WlanMsg::Unknown),
    {
        Ok(WlanMsg::Unknown)
    }
}

/// The message of a log entry, by its category.
#[derive(Debug, PartialEq, Eq, Clone, Copy, Hash)]
pub enum LogMsg {
    /// Category 1.
    System(SystemMsg),
    /// Category 2.
    Internet(InternetMsg),
    /// Category 3.
    Phone(PhoneMsg),
    /// Category 4.
    Wlan(WlanMsg),
    /// Category 5.
    Usb(UsbMsg),
}

/// Why a text is no message of a category.
#[derive(Debug, PartialEq, Eq, Structural, Clone, Copy, Hash)]
pub enum ParseLogMsgError {
    /// The category is no integer.
    CategoryParse,
    /// The category is none of the five.
    CategoryOutOfRange(i64),
    SystemMsgError,
    /// The message reports a connection or a ready line, and its details cannot
    /// be read.
    InternetMsgError,
    PhoneMsgError,
    WlanMsgError,
    UsbMsgError,
}

/// The message that `msg` is in the category `category`.
pub open spec fn spec_log_msg(category: i64, msg: Seq<char>) -> Result<LogMsg, ParseLogMsgError> {
    if category == 1 {
        Ok(LogMsg::System(SystemMsg::Unknown))
    } else if category == 2 {
        match spec_internet_msg(spec_trim(msg)) {
            Ok(internet) => Ok(LogMsg::Internet(internet)),
            Err(_) => Err(ParseLogMsgError::InternetMsgError),
        }
    } else if category == 3 {
        Ok(LogMsg::Phone(PhoneMsg::Unknown))
    } else if category == 4 {
        Ok(LogMsg::Wlan(WlanMsg::Unknown))
    } else if category == 5 {
        Ok(LogMsg::Usb(UsbMsg::Unknown))
    } else {
        Err(ParseLogMsgError::CategoryOutOfRange(category))
    }
}

/// The message of a raw entry: that of its text in the category that its
/// category field spells.
pub open spec fn spec_log_msg_of_entry(entry: RawLogEntry) -> Result<LogMsg, ParseLogMsgError> {
    match spec_parse_i64(entry.category@) {
        None => Err(ParseLogMsgError::CategoryParse),
        Some(category) => spec_log_msg(category, entry.msg@),
    }
}

impl LogMsg {
    pub open spec fn spec_category(&self) -> i64 {
        match self {
            LogMsg::System(_) => 1,
            LogMsg::Internet(_) => 2,
            LogMsg::Phone(_) => 3,
            LogMsg::Wlan(_) => 4,
            LogMsg::Usb(_) => 5,
        }
    }

    /// Reads the message `msg` of the category `category`, a number from 1 to 5.
    pub fn from_category_and_msg(category: i64, msg: &str) -> (parsed: Result<
        LogMsg,
        ParseLogMsgError,
    >)
        ensures
            parsed == spec_log_msg(category, msg@),
    {
        match category {
            1 => match SystemMsg::from_log_msg(msg) {
                Ok(system) => Ok(LogMsg::System(system)),
                Err(_) => Err(ParseLogMsgError::SystemMsgError),
            },
            2 => match InternetMsg::from_log_msg(msg) {
                Ok(internet) => Ok(LogMsg::Internet(internet)),
                Err(_) => Err(ParseLogMsgError::InternetMsgError),
            },
            3 => match PhoneMsg::from_log_msg(msg) {
                Ok(phone) => Ok(LogMsg::Phone(phone)),
                Err(_) => Err(ParseLogMsgError::PhoneMsgError),
            },
            4 => match WlanMsg::from_log_msg(msg) {
                Ok(wlan) => Ok(LogMsg::Wlan(wlan)),
                Err(_) => Err(ParseLogMsgError::WlanMsgError),
            },
            5 => match UsbMsg::from_log_msg(msg) {
                Ok(usb) => Ok(LogMsg::Usb(usb)),
                Err(_) => Err(ParseLogMsgError::UsbMsgError),
            },
            num => Err(ParseLogMsgError::CategoryOutOfRange(num)),
        }
    }

    /// The number of the message's category.
    #[verifier::when_used_as_spec(spec_category)]
    pub fn category(&self) -> (category: i64)
        ensures
            category == self.spec_category(),
    {
        match self {
            LogMsg::System(_) => 1,
            LogMsg::Internet(_) => 2,
            LogMsg::Phone(_) => 3,
            LogMsg::Wlan(_) => 4,
            LogMsg::Usb(_) => 5,
        }
    }

    pub fn is_system(&self) -> (is: bool)
        ensures
            is == (self is System),
    {
        matches!(self, LogMsg::System(_))
    }

    pub fn is_internet(&self) -> (is: bool)
        ensures
            is == (self is Internet),
    {
        matches!(self, LogMsg::Internet(_))
    }

    pub fn is_phone(&self) -> (is: bool)
        ensures
            is == (self is Phone),
    {
        matches!(self, LogMsg::Phone(_))
    }

    pub fn is_wlan(&self) -> (is: bool)
        ensures
            is == (self is Wlan),
    {
        matches!(self, LogMsg::Wlan(_))
    }

    pub fn is_usb(&self) -> (is: bool)
        ensures
            is == (self is Usb),
    {
        matches!(self, LogMsg::Usb(_))
    }

    pub fn system(&self) -> (msg: Option<&SystemMsg>)
        ensures
            match *self {
                LogMsg::System(system) => msg == Some(&system),
                _ => msg.is_none(),
            },
    {
        match self {
            LogMsg::System(msg) => Some(msg),
            _ => None,
        }
    }

    pub fn internet(&self) -> (msg: Option<&InternetMsg>)
        ensures
            match *self {
                LogMsg::Internet(internet) => msg == Some(&internet),
                _ => msg.is_none(),
            },
    {
        match self {
            LogMsg::Internet(msg) => Some(msg),
            _ => None,
        }
    }

    pub fn phone(&self) -> (msg: Option<&PhoneMsg>)
        ensures
            match *self {
                LogMsg::Phone(phone) => msg == Some(&phone),
                _ => msg.is_none(),
            },
    {
        match self {
            LogMsg::Phone(msg) => Some(msg),
            _ => None,
        }
    }

    pub fn wlan(&self) -> (msg: Option<&WlanMsg>)
        ensures
            match *self {
                LogMsg::Wlan(wlan) => msg == Some(&wlan),
                _ => msg.is_none(),
            },
    {
        match self {
            LogMsg::Wlan(msg) => Some(msg),
            _ => None,
        }
    }

    pub fn usb(&self) -> (msg: Option<&UsbMsg>)
        ensures
            match *self {
                LogMsg::Usb(usb) => msg == Some(&usb),
                _ => msg.is_none(),
            },
    {
        match self {
            LogMsg::Usb(msg) => Some(msg),
            _ => None,
        }
    }
}

impl FromLogEntry for LogMsg {
    type Err = ParseLogMsgError;

    /// Reads the message of a raw entry, in the category that the entry names.
    fn from_log_entry(entry: &RawLogEntry) -> (parsed: Result<LogMsg, ParseLogMsgError>)
        ensures
            parsed == spec_log_msg_of_entry(*entry),
    {
        match parse_i64(entry.category.as_str()) {
            None => Err(ParseLogMsgError::CategoryParse),
            Some(category) => LogMsg::from_category_and_msg(category, entry.msg.as_str()),
        }
    }
}

/// A message is of the category in which it was read.
pub proof fn law_category_round_trip(category: i64, msg: Seq<char>)
    ensures
        spec_log_msg(category, msg) matches Ok(parsed) ==> parsed.spec_category() == category,
{
}

} // verus!
