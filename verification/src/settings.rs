//! The settings store: every recognized policy option with its current
//! value, created with the defaults and mutated by the typed setters or by
//! the parsers.

use vstd::prelude::*;

verus! {

/// Minimum acceptable `min_length`: smaller values are raised to this floor.
pub const PWQ_BASE_MIN_LENGTH: i32 = 6;

/// Number of character classes (digits, uppercase, lowercase, other).
pub const PWQ_NUM_CLASSES: i32 = 4;

/// One recognized integer-valued option. Boolean options are stored as
/// integers, zero meaning disabled.
#[derive(Clone, Copy, Debug, PartialEq, Eq, Structural)]
pub enum IntSetting {
    DiffOk,
    MinLength,
    DigCredit,
    UpCredit,
    LowCredit,
    OthCredit,
    MinClass,
    MaxRepeat,
    MaxClassRepeat,
    MaxSequence,
    GecosCheck,
    DictCheck,
    UserCheck,
    UserSubstr,
    Enforcing,
    RetryTimes,
    EnforceRoot,
    LocalUsers,
}

/// One recognized string-valued option.
#[derive(Clone, Copy, Debug, PartialEq, Eq, Structural)]
pub enum StrSetting {
    BadWords,
    DictPath,
}

/// The settings store. Each field holds the current value of one option;
/// every option always has a value.
#[allow(non_camel_case_types)]
#[derive(Debug)]
pub struct pwquality_settings {
    pub diff_ok: i32,
    pub min_length: i32,
    pub dig_credit: i32,
    pub up_credit: i32,
    pub low_credit: i32,
    pub oth_credit: i32,
    pub min_class: i32,
    pub max_repeat: i32,
    pub max_class_repeat: i32,
    pub max_sequence: i32,
    pub gecos_check: i32,
    pub dict_check: i32,
    pub user_check: i32,
    pub user_substr: i32,
    pub enforcing: i32,
    pub retry_times: i32,
    pub enforce_root: i32,
    pub local_users: i32,
    pub bad_words: String,
    pub dict_path: String,
}

/// The mathematical content of a settings store: every option's current
/// value, with strings as character sequences.
pub struct SettingsModel {
    pub diff_ok: i32,
    pub min_length: i32,
    pub dig_credit: i32,
    pub up_credit: i32,
    pub low_credit: i32,
    pub oth_credit: i32,
    pub min_class: i32,
    pub max_repeat: i32,
    pub max_class_repeat: i32,
    pub max_sequence: i32,
    pub gecos_check: i32,
    pub dict_check: i32,
    pub user_check: i32,
    pub user_substr: i32,
    pub enforcing: i32,
    pub retry_times: i32,
    pub enforce_root: i32,
    pub local_users: i32,
    pub bad_words: Seq<char>,
    pub dict_path: Seq<char>,
}

impl View for pwquality_settings {
    type V = SettingsModel;

    open spec fn view(&self) -> SettingsModel {
        SettingsModel {
            diff_ok: self.diff_ok,
            min_length: self.min_length,
            dig_credit: self.dig_credit,
            up_credit: self.up_credit,
            low_credit: self.low_credit,
            oth_credit: self.oth_credit,
            min_class: self.min_class,
            max_repeat: self.max_repeat,
            max_class_repeat: self.max_class_repeat,
            max_sequence: self.max_sequence,
            gecos_check: self.gecos_check,
            dict_check: self.dict_check,
            user_check: self.user_check,
            user_substr: self.user_substr,
            enforcing: self.enforcing,
            retry_times: self.retry_times,
            enforce_root: self.enforce_root,
            local_users: self.local_users,
            bad_words: self.bad_words@,
            dict_path: self.dict_path@,
        }
    }
}

/// The store holds the default value of every option.
pub open spec fn is_default(s: SettingsModel) -> bool {
    &&& s.diff_ok == 1
    &&& s.min_length == 8
    &&& s.dig_credit == 0
    &&& s.up_credit == 0
    &&& s.low_credit == 0
    &&& s.oth_credit == 0
    &&& s.min_class == 0
    &&& s.max_repeat == 0
    &&& s.max_class_repeat == 0
    &&& s.max_sequence == 0
    &&& s.gecos_check == 0
    &&& s.dict_check == 1
    &&& s.user_check == 1
    &&& s.user_substr == 0
    &&& s.enforcing == 1
    &&& s.retry_times == 1
    &&& s.enforce_root == 0
    &&& s.local_users == 0
    &&& s.bad_words == Seq::<char>::empty()
    &&& s.dict_path == Seq::<char>::empty()
}

/// The current value of an integer option.
pub open spec fn spec_int_value(s: SettingsModel, st: IntSetting) -> i32 {
    match st {
        IntSetting::DiffOk => s.diff_ok,
        IntSetting::MinLength => s.min_length,
        IntSetting::DigCredit => s.dig_credit,
        IntSetting::UpCredit => s.up_credit,
        IntSetting::LowCredit => s.low_credit,
        IntSetting::OthCredit => s.oth_credit,
        IntSetting::MinClass => s.min_class,
        IntSetting::MaxRepeat => s.max_repeat,
        IntSetting::MaxClassRepeat => s.max_class_repeat,
        IntSetting::MaxSequence => s.max_sequence,
        IntSetting::GecosCheck => s.gecos_check,
        IntSetting::DictCheck => s.dict_check,
        IntSetting::UserCheck => s.user_check,
        IntSetting::UserSubstr => s.user_substr,
        IntSetting::Enforcing => s.enforcing,
        IntSetting::RetryTimes => s.retry_times,
        IntSetting::EnforceRoot => s.enforce_root,
        IntSetting::LocalUsers => s.local_users,
    }
}

/// The value actually stored when `v` is assigned to an integer option:
/// `min_length` is raised to its floor, `min_class` is confined to the
/// number of classes; every other option stores `v` as given.
pub open spec fn clamp_int(st: IntSetting, v: i32) -> i32 {
    match st {
        IntSetting::MinLength => if v < PWQ_BASE_MIN_LENGTH {
            PWQ_BASE_MIN_LENGTH
        } else {
            v
        },
        IntSetting::MinClass => if v < 0 {
            0
        } else if v > PWQ_NUM_CLASSES {
            PWQ_NUM_CLASSES
        } else {
            v
        },
        _ => v,
    }
}

/// The store after an integer option is assigned.
pub open spec fn spec_set_int(s: SettingsModel, st: IntSetting, v: i32) -> SettingsModel {
    let c = clamp_int(st, v);
    match st {
        IntSetting::DiffOk => SettingsModel { diff_ok: c, ..s },
        IntSetting::MinLength => SettingsModel { min_length: c, ..s },
        IntSetting::DigCredit => SettingsModel { dig_credit: c, ..s },
        IntSetting::UpCredit => SettingsModel { up_credit: c, ..s },
        IntSetting::LowCredit => SettingsModel { low_credit: c, ..s },
        IntSetting::OthCredit => SettingsModel { oth_credit: c, ..s },
        IntSetting::MinClass => SettingsModel { min_class: c, ..s },
        IntSetting::MaxRepeat => SettingsModel { max_repeat: c, ..s },
        IntSetting::MaxClassRepeat => SettingsModel { max_class_repeat: c, ..s },
        IntSetting::MaxSequence => SettingsModel { max_sequence: c, ..s },
        IntSetting::GecosCheck => SettingsModel { gecos_check: c, ..s },
        IntSetting::DictCheck => SettingsModel { dict_check: c, ..s },
        IntSetting::UserCheck => SettingsModel { user_check: c, ..s },
        IntSetting::UserSubstr => SettingsModel { user_substr: c, ..s },
        IntSetting::Enforcing => SettingsModel { enforcing: c, ..s },
        IntSetting::RetryTimes => SettingsModel { retry_times: c, ..s },
        IntSetting::EnforceRoot => SettingsModel { enforce_root: c, ..s },
        IntSetting::LocalUsers => SettingsModel { local_users: c, ..s },
    }
}

/// The current characters of a string option.
pub open spec fn spec_str_value(s: SettingsModel, st: StrSetting) -> Seq<char> {
    match st {
        StrSetting::BadWords => s.bad_words,
        StrSetting::DictPath => s.dict_path,
    }
}

/// The store after a string option is assigned.
pub open spec fn spec_set_str(s: SettingsModel, st: StrSetting, v: Seq<char>) -> SettingsModel {
    match st {
        StrSetting::BadWords => SettingsModel { bad_words: v, ..s },
        StrSetting::DictPath => SettingsModel { dict_path: v, ..s },
    }
}

impl pwquality_settings {
    /// A store holding the default value of every option.
    pub fn default_settings() -> (r: Self)
        ensures
            is_default(r@),
    {
        pwquality_settings {
            diff_ok: 1,
            min_length: 8,
            dig_credit: 0,
            up_credit: 0,
            low_credit: 0,
            oth_credit: 0,
            min_class: 0,
            max_repeat: 0,
            max_class_repeat: 0,
            max_sequence: 0,
            gecos_check: 0,
            dict_check: 1,
            user_check: 1,
            user_substr: 0,
            enforcing: 1,
            retry_times: 1,
            enforce_root: 0,
            local_users: 0,
            bad_words: String::new(),
            dict_path: String::new(),
        }
    }

    /// Assigns an integer option, applying its clamp rule. Never fails.
    pub fn set_int_value(&mut self, setting: IntSetting, value: i32)
        ensures
            final(self)@ == spec_set_int(old(self)@, setting, value),
    {
        match setting {
            IntSetting::DiffOk => self.diff_ok = value,
            IntSetting::MinLength => self.min_length = if value < PWQ_BASE_MIN_LENGTH {
                PWQ_BASE_MIN_LENGTH
            } else {
                value
            },
            IntSetting::DigCredit => self.dig_credit = value,
            IntSetting::UpCredit => self.up_credit = value,
            IntSetting::LowCredit => self.low_credit = value,
            IntSetting::OthCredit => self.oth_credit = value,
            IntSetting::MinClass => self.min_class = if value < 0 {
                0
            } else if value > PWQ_NUM_CLASSES {
                PWQ_NUM_CLASSES
            } else {
                value
            },
            IntSetting::MaxRepeat => self.max_repeat = value,
            IntSetting::MaxClassRepeat => self.max_class_repeat = value,
            IntSetting::MaxSequence => self.max_sequence = value,
            IntSetting::GecosCheck => self.gecos_check = value,
            IntSetting::DictCheck => self.dict_check = value,
            IntSetting::UserCheck => self.user_check = value,
            IntSetting::UserSubstr => self.user_substr = value,
            IntSetting::Enforcing => self.enforcing = value,
            IntSetting::RetryTimes => self.retry_times = value,
            IntSetting::EnforceRoot => self.enforce_root = value,
            IntSetting::LocalUsers => self.local_users = value,
        }
    }

    /// The current value of an integer option.
    pub fn get_int_value(&self, setting: IntSetting) -> (r: i32)
        ensures
            r == spec_int_value(self@, setting),
    {
        match setting {
            IntSetting::DiffOk => self.diff_ok,
            IntSetting::MinLength => self.min_length,
            IntSetting::DigCredit => self.dig_credit,
            IntSetting::UpCredit => self.up_credit,
            IntSetting::LowCredit => self.low_credit,
            IntSetting::OthCredit => self.oth_credit,
            IntSetting::MinClass => self.min_class,
            IntSetting::MaxRepeat => self.max_repeat,
            IntSetting::MaxClassRepeat => self.max_class_repeat,
            IntSetting::MaxSequence => self.max_sequence,
            IntSetting::GecosCheck => self.gecos_check,
            IntSetting::DictCheck => self.dict_check,
            IntSetting::UserCheck => self.user_check,
            IntSetting::UserSubstr => self.user_substr,
            IntSetting::Enforcing => self.enforcing,
            IntSetting::RetryTimes => self.retry_times,
            IntSetting::EnforceRoot => self.enforce_root,
            IntSetting::LocalUsers => self.local_users,
        }
    }

    /// Assigns a string option. Never fails: both recognized string options
    /// accept any characters.
    pub fn set_str_value(&mut self, setting: StrSetting, value: String)
        ensures
            final(self)@ == spec_set_str(old(self)@, setting, value@),
    {
        match setting {
            StrSetting::BadWords => self.bad_words = value,
            StrSetting::DictPath => self.dict_path = value,
        }
    }

    /// The current value of a string option, as a fresh string.
    pub fn get_str_value(&self, setting: StrSetting) -> (r: String)
        ensures
            r@ == spec_str_value(self@, setting),
    {
        match setting {
            StrSetting::BadWords => self.bad_words.clone(),
            StrSetting::DictPath => self.dict_path.clone(),
        }
    }
}

/// Reading an integer option immediately after assigning it yields the
/// clamped value that was stored, never the raw input.
pub proof fn lemma_int_set_then_get(s: SettingsModel, st: IntSetting, v: i32)
    ensures
        spec_int_value(spec_set_int(s, st, v), st) == clamp_int(st, v),
{
}

/// Assigning one integer option leaves every other integer option as it
/// was.
pub proof fn lemma_int_set_frames_others(
    s: SettingsModel,
    st: IntSetting,
    other: IntSetting,
    v: i32,
)
    requires
        st != other,
    ensures
        spec_int_value(spec_set_int(s, st, v), other) == spec_int_value(s, other),
{
}

/// Reading a string option immediately after assigning it yields exactly
/// the assigned characters.
pub proof fn lemma_str_set_then_get(s: SettingsModel, st: StrSetting, v: Seq<char>)
    ensures
        spec_str_value(spec_set_str(s, st, v), st) == v,
{
}

} // verus!
