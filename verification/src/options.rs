//! The option schema: the table of recognized option names, each with its
//! value kind and the schema version it first appears in, and the shared
//! `name`/`value` application logic behind both parsers.

use vstd::prelude::*;
use crate::error::ErrorKind;
use crate::settings::IntSetting;
use crate::settings::SettingsModel;
use crate::settings::StrSetting;
use crate::settings::pwquality_settings;
use crate::settings::spec_set_int;
use crate::settings::spec_set_str;
use crate::text::chars_eq_str;
use crate::text::find_char_from;
use crate::text::find_from;
use crate::text::lemma_find_from;
use crate::text::parse_int_chars;
use crate::text::parse_int_spec;
use crate::text::string_of_chars;
use crate::text::subvec;

verus! {

/// The schema version this engine implements, as hundreds-tens-ones for
/// major-minor-patch. Options gated on a later version are not recognized.
pub const SCHEMA_VERSION: u32 = 145;

/// A recognized option: its identity and its value kind.
#[derive(Clone, Copy, Debug, PartialEq, Eq, Structural)]
pub enum OptionDef {
    IntOpt(IntSetting),
    StrOpt(StrSetting),
}

/// The schema version at which an option becomes recognized.
pub open spec fn spec_min_version(def: OptionDef) -> u32 {
    match def {
        OptionDef::IntOpt(st) => match st {
            IntSetting::MaxSequence => 120,
            IntSetting::DictCheck => 130,
            IntSetting::UserCheck => 140,
            IntSetting::Enforcing => 140,
            IntSetting::RetryTimes => 141,
            IntSetting::EnforceRoot => 141,
            IntSetting::LocalUsers => 141,
            IntSetting::UserSubstr => 143,
            _ => 100,
        },
        OptionDef::StrOpt(_) => 100,
    }
}

/// The option the schema lists under `name`, before version gating.
pub open spec fn spec_lookup_name(name: Seq<char>) -> Option<OptionDef> {
    if name == "difok"@ {
        Some(OptionDef::IntOpt(IntSetting::DiffOk))
    } else if name == "minlen"@ {
        Some(OptionDef::IntOpt(IntSetting::MinLength))
    } else if name == "dcredit"@ {
        Some(OptionDef::IntOpt(IntSetting::DigCredit))
    } else if name == "ucredit"@ {
        Some(OptionDef::IntOpt(IntSetting::UpCredit))
    } else if name == "lcredit"@ {
        Some(OptionDef::IntOpt(IntSetting::LowCredit))
    } else if name == "ocredit"@ {
        Some(OptionDef::IntOpt(IntSetting::OthCredit))
    } else if name == "minclass"@ {
        Some(OptionDef::IntOpt(IntSetting::MinClass))
    } else if name == "maxrepeat"@ {
        Some(OptionDef::IntOpt(IntSetting::MaxRepeat))
    } else if name == "maxsequence"@ {
        Some(OptionDef::IntOpt(IntSetting::MaxSequence))
    } else if name == "maxclassrepeat"@ {
        Some(OptionDef::IntOpt(IntSetting::MaxClassRepeat))
    } else if name == "gecoscheck"@ {
        Some(OptionDef::IntOpt(IntSetting::GecosCheck))
    } else if name == "dictcheck"@ {
        Some(OptionDef::IntOpt(IntSetting::DictCheck))
    } else if name == "usercheck"@ {
        Some(OptionDef::IntOpt(IntSetting::UserCheck))
    } else if name == "usersubstr"@ {
        Some(OptionDef::IntOpt(IntSetting::UserSubstr))
    } else if name == "enforcing"@ {
        Some(OptionDef::IntOpt(IntSetting::Enforcing))
    } else if name == "retry"@ {
        Some(OptionDef::IntOpt(IntSetting::RetryTimes))
    } else if name == "enforce_for_root"@ {
        Some(OptionDef::IntOpt(IntSetting::EnforceRoot))
    } else if name == "local_users_only"@ {
        Some(OptionDef::IntOpt(IntSetting::LocalUsers))
    } else if name == "badwords"@ {
        Some(OptionDef::StrOpt(StrSetting::BadWords))
    } else if name == "dictpath"@ {
        Some(OptionDef::StrOpt(StrSetting::DictPath))
    } else {
        None
    }
}

/// The option recognized under `name` at schema version `version`.
pub open spec fn spec_lookup(name: Seq<char>, version: u32) -> Option<OptionDef> {
    match spec_lookup_name(name) {
        Some(def) => if spec_min_version(def) <= version {
            Some(def)
        } else {
            None
        },
        None => None,
    }
}

/// The outcome of applying the pair `name`, `value` to a store: the new
/// contents and the error, if any. A failed application leaves the store
/// unchanged; an integer option takes a decimal value that fits its range,
/// a string option takes the value as given.
pub open spec fn spec_apply_option(
    s: SettingsModel,
    name: Seq<char>,
    value: Seq<char>,
    version: u32,
) -> (SettingsModel, Option<ErrorKind>) {
    match spec_lookup(name, version) {
        Option::None => (s, Option::Some(ErrorKind::UnknownSetting)),
        Option::Some(OptionDef::IntOpt(st)) => match parse_int_spec(value) {
            Option::Some(v) => if i32::MIN <= v <= i32::MAX {
                (spec_set_int(s, st, v as i32), Option::None)
            } else {
                (s, Option::Some(ErrorKind::NonIntSetting))
            },
            Option::None => (s, Option::Some(ErrorKind::NonIntSetting)),
        },
        Option::Some(OptionDef::StrOpt(st)) => (spec_set_str(s, st, value), Option::None),
    }
}

/// The outcome of applying a single `name=value` option string: the text is
/// split at its first `=` (an absent `=` leaves an empty value), and the
/// two parts are applied as a pair.
pub open spec fn spec_set_option(s: SettingsModel, opt: Seq<char>, version: u32) -> (
    SettingsModel,
    Option<ErrorKind>,
) {
    let e = find_from(opt, '=', 0);
    let name = opt.subrange(0, e);
    let value = if e < opt.len() {
        opt.subrange(e + 1, opt.len() as int)
    } else {
        Seq::<char>::empty()
    };
    spec_apply_option(s, name, value, version)
}

/// The schema version at which `def` becomes recognized.
pub fn min_version_of(def: OptionDef) -> (r: u32)
    ensures
        r == spec_min_version(def),
{
    match def {
        OptionDef::IntOpt(st) => match st {
            IntSetting::MaxSequence => 120,
            IntSetting::DictCheck => 130,
            IntSetting::UserCheck => 140,
            IntSetting::Enforcing => 140,
            IntSetting::RetryTimes => 141,
            IntSetting::EnforceRoot => 141,
            IntSetting::LocalUsers => 141,
            IntSetting::UserSubstr => 143,
            _ => 100,
        },
        OptionDef::StrOpt(_) => 100,
    }
}

/// Looks `name` up in the option schema at version `version`.
pub fn lookup_option(name: &Vec<char>, version: u32) -> (r: Option<OptionDef>)
    ensures
        r == spec_lookup(name@, version),
{
    let def: Option<OptionDef> = if chars_eq_str(name, "difok") {
        Some(OptionDef::IntOpt(IntSetting::DiffOk))
    } else if chars_eq_str(name, "minlen") {
        Some(OptionDef::IntOpt(IntSetting::MinLength))
    } else if chars_eq_str(name, "dcredit") {
        Some(OptionDef::IntOpt(IntSetting::DigCredit))
    } else if chars_eq_str(name, "ucredit") {
        Some(OptionDef::IntOpt(IntSetting::UpCredit))
    } else if chars_eq_str(name, "lcredit") {
        Some(OptionDef::IntOpt(IntSetting::LowCredit))
    } else if chars_eq_str(name, "ocredit") {
        Some(OptionDef::IntOpt(IntSetting::OthCredit))
    } else if chars_eq_str(name, "minclass") {
        Some(OptionDef::IntOpt(IntSetting::MinClass))
    } else if chars_eq_str(name, "maxrepeat") {
        Some(OptionDef::IntOpt(IntSetting::MaxRepeat))
    } else if chars_eq_str(name, "maxsequence") {
        Some(OptionDef::IntOpt(IntSetting::MaxSequence))
    } else if chars_eq_str(name, "maxclassrepeat") {
        Some(OptionDef::IntOpt(IntSetting::MaxClassRepeat))
    } else if chars_eq_str(name, "gecoscheck") {
        Some(OptionDef::IntOpt(IntSetting::GecosCheck))
    } else if chars_eq_str(name, "dictcheck") {
        Some(OptionDef::IntOpt(IntSetting::DictCheck))
    } else if chars_eq_str(name, "usercheck") {
        Some(OptionDef::IntOpt(IntSetting::UserCheck))
    } else if chars_eq_str(name, "usersubstr") {
        Some(OptionDef::IntOpt(IntSetting::UserSubstr))
    } else if chars_eq_str(name, "enforcing") {
        Some(OptionDef::IntOpt(IntSetting::Enforcing))
    } else if chars_eq_str(name, "retry") {
        Some(OptionDef::IntOpt(IntSetting::RetryTimes))
    } else if chars_eq_str(name, "enforce_for_root") {
        Some(OptionDef::IntOpt(IntSetting::EnforceRoot))
    } else if chars_eq_str(name, "local_users_only") {
        Some(OptionDef::IntOpt(IntSetting::LocalUsers))
    } else if chars_eq_str(name, "badwords") {
        Some(OptionDef::StrOpt(StrSetting::BadWords))
    } else if chars_eq_str(name, "dictpath") {
        Some(OptionDef::StrOpt(StrSetting::DictPath))
    } else {
        None
    };
    match def {
        Some(d) => {
            if min_version_of(d) <= version {
                Some(d)
            } else {
                None
            }
        },
        None => None,
    }
}

/// Applies the pair `name`, `value` to the store, by the shared recognition
/// and type-checking rules of both parsers. A failure leaves the store
/// unchanged.
pub fn apply_option(s: &mut pwquality_settings, name: &Vec<char>, value: &Vec<char>) -> (r: Result<
    (),
    ErrorKind,
>)
    ensures
        final(s)@ == spec_apply_option(old(s)@, name@, value@, SCHEMA_VERSION).0,
        (match r {
            Result::Ok(()) => spec_apply_option(old(s)@, name@, value@, SCHEMA_VERSION).1 is None,
            Result::Err(k) => spec_apply_option(old(s)@, name@, value@, SCHEMA_VERSION).1 == Some(
                k,
            ),
        }),
{
    match lookup_option(name, SCHEMA_VERSION) {
        Option::None => Err(ErrorKind::UnknownSetting),
        Option::Some(OptionDef::IntOpt(st)) => match parse_int_chars(value) {
            Option::Some(v) => {
                s.set_int_value(st, v);
                Ok(())
            },
            Option::None => Err(ErrorKind::NonIntSetting),
        },
        Option::Some(OptionDef::StrOpt(st)) => {
            let sv = string_of_chars(value);
            s.set_str_value(st, sv);
            Ok(())
        },
    }
}

/// Applies a single `name=value` option string to the store.
pub fn set_option_chars(s: &mut pwquality_settings, opt: &Vec<char>) -> (r: Result<(), ErrorKind>)
    ensures
        final(s)@ == spec_set_option(old(s)@, opt@, SCHEMA_VERSION).0,
        (match r {
            Result::Ok(()) => spec_set_option(old(s)@, opt@, SCHEMA_VERSION).1 is None,
            Result::Err(k) => spec_set_option(old(s)@, opt@, SCHEMA_VERSION).1 == Some(k),
        }),
{
    proof {
        lemma_find_from(opt@, '=', 0);
    }
    let n = opt.len();
    let e = find_char_from(opt, '=', 0);
    let name = subvec(opt, 0, e);
    let value = if e < n {
        subvec(opt, e + 1, n)
    } else {
        Vec::<char>::new()
    };
    proof {
        if e >= n {
            assert(value@ =~= Seq::<char>::empty());
        }
    }
    apply_option(s, &name, &value)
}

/// Setting an integer option through the option-string form stores exactly
/// what the direct setter stores for the decimal value the text denotes.
pub proof fn lemma_option_string_matches_int_setter(
    s: SettingsModel,
    name: Seq<char>,
    value: Seq<char>,
    st: IntSetting,
    v: int,
)
    requires
        spec_lookup(name, SCHEMA_VERSION) == Some(OptionDef::IntOpt(st)),
        parse_int_spec(value) == Some(v),
        i32::MIN <= v <= i32::MAX,
    ensures
        spec_apply_option(s, name, value, SCHEMA_VERSION) == (
            spec_set_int(s, st, v as i32),
            Option::<ErrorKind>::None,
        ),
{
}

/// Setting a string option through the option-string form stores exactly
/// what the direct setter stores for the same characters.
pub proof fn lemma_option_string_matches_str_setter(
    s: SettingsModel,
    name: Seq<char>,
    value: Seq<char>,
    st: StrSetting,
)
    requires
        spec_lookup(name, SCHEMA_VERSION) == Some(OptionDef::StrOpt(st)),
    ensures
        spec_apply_option(s, name, value, SCHEMA_VERSION) == (
            spec_set_str(s, st, value),
            Option::<ErrorKind>::None,
        ),
{
}

} // verus!
