//! The engine handle: a `PWQuality` owns one settings store and offers the
//! original API surface of typed setters and getters, the parsers, the
//! checker, and the generator.

use vstd::prelude::*;
use crate::check::CheckOutcome;
use crate::check::check_chars;
use crate::check::check_result_matches;
use crate::check::opt_str_view;
use crate::check::opt_vec_view;
use crate::check::spec_check;
use crate::config::parse_config_chars;
use crate::config::spec_parse_config;
use crate::error::ErrorKind;
use crate::error::PWQError;
use crate::generate::generate_password;
use crate::generate::spec_pw_len;
use crate::options::SCHEMA_VERSION;
use crate::options::set_option_chars;
use crate::options::spec_set_option;
use crate::settings::IntSetting;
use crate::settings::SettingsModel;
use crate::settings::StrSetting;
use crate::settings::is_default;
use crate::settings::pwquality_settings;
use crate::settings::spec_int_value;
use crate::settings::spec_set_int;
use crate::settings::spec_set_str;
use crate::text::chars_of;
use crate::text::find_char_from;
use crate::text::find_from;
use crate::text::lemma_find_from;
use crate::text::split_words;
use crate::text::split_words_vec;
use crate::text::string_of_chars;
use crate::text::subvec;

verus! {

/// The space-joined text a list of words is stored as.
pub open spec fn join_words(ws: Seq<Seq<char>>) -> Seq<char>
    decreases ws.len(),
{
    if ws.len() == 0 {
        Seq::empty()
    } else if ws.len() == 1 {
        ws[0]
    } else {
        join_words(ws.drop_last()) + seq![' '] + ws.last()
    }
}

/// A `PWQuality` instance: owns the settings store that the parsers
/// mutate and the checker and generator read.
pub struct PWQuality {
    pwq: pwquality_settings,
}

impl View for PWQuality {
    type V = SettingsModel;

    closed spec fn view(&self) -> SettingsModel {
        self.pwq@
    }
}

impl PWQuality {
    /// A new instance holding the default value of every option.
    pub fn new() -> (r: Result<Self, PWQError>)
        ensures
            r matches Ok(p) && is_default(p@),
    {
        Ok(PWQuality { pwq: pwquality_settings::default_settings() })
    }

    /// Parses configuration text into the store: `name = value` lines,
    /// `#` comments and blank lines skipped. The first malformed or
    /// unrecognized line stops parsing, reported with its text attached;
    /// directives before it stay applied.
    pub fn parse_config(&mut self, text: &str) -> (r: Result<(), PWQError>)
        ensures
            final(self)@ == spec_parse_config(old(self)@, text@, SCHEMA_VERSION).0,
            (match r {
                Result::Ok(()) => spec_parse_config(old(self)@, text@, SCHEMA_VERSION).1 is None,
                Result::Err(e) => {
                    &&& spec_parse_config(old(self)@, text@, SCHEMA_VERSION).1 matches Some(l)
                    &&& e.kind == ErrorKind::CfgFileMalformed
                    &&& e.aux matches Some(a) && (a@ == l)
                },
            }),
    {
        let chars = chars_of(text);
        parse_config_chars(&mut self.pwq, &chars)
    }

    /// Applies a single `name=value` option string, by the same
    /// recognition and type-checking rules as the configuration parser.
    /// An unrecognized name is reported with the name attached.
    pub fn set_option(&mut self, option: &str) -> (r: Result<(), PWQError>)
        ensures
            final(self)@ == spec_set_option(old(self)@, option@, SCHEMA_VERSION).0,
            (match r {
                Result::Ok(()) => spec_set_option(old(self)@, option@, SCHEMA_VERSION).1 is None,
                Result::Err(e) => {
                    &&& spec_set_option(old(self)@, option@, SCHEMA_VERSION).1 == Some(e.kind)
                    &&& (e.kind == ErrorKind::UnknownSetting ==> (e.aux matches Some(a) && (a@
                        == option@.subrange(0, find_from(option@, '=', 0)))))
                    &&& (e.kind != ErrorKind::UnknownSetting ==> e.aux is None)
                },
            }),
    {
        let chars = chars_of(option);
        match set_option_chars(&mut self.pwq, &chars) {
            Result::Ok(()) => Ok(()),
            Result::Err(k) => {
                if k == ErrorKind::UnknownSetting {
                    proof {
                        lemma_find_from(chars@, '=', 0);
                    }
                    let e = find_char_from(&chars, '=', 0);
                    let name = subvec(&chars, 0, e);
                    Err(PWQError::with_aux(k, string_of_chars(&name)))
                } else {
                    Err(PWQError::new(k))
                }
            },
        }
    }

    /// Checks a candidate password against the current settings,
    /// optionally relative to the previous password and the user name,
    /// with no dictionary collaborator consulted. Returns the quality
    /// score exactly when the whole rule pipeline passes, and the first
    /// violated rule otherwise.
    pub fn check(&self, password: &str, old_password: Option<&str>, user: Option<&str>) -> (r:
        Result<i32, PWQError>)
        ensures
            check_result_matches(
                r,
                spec_check(
                    self@,
                    password@,
                    opt_str_view(old_password),
                    opt_str_view(user),
                    Option::None,
                ),
            ),
    {
        self.check_with_dict(password, old_password, user, None)
    }

    /// Checks like `check`, with the external dictionary collaborator's
    /// verdict for this candidate supplied by the caller: the word the
    /// dictionary matched, if any. The verdict counts only while the
    /// `dictcheck` option is enabled.
    pub fn check_with_dict(
        &self,
        password: &str,
        old_password: Option<&str>,
        user: Option<&str>,
        dict_match: Option<&str>,
    ) -> (r: Result<i32, PWQError>)
        ensures
            check_result_matches(
                r,
                spec_check(
                    self@,
                    password@,
                    opt_str_view(old_password),
                    opt_str_view(user),
                    opt_str_view(dict_match),
                ),
            ),
    {
        let pw = chars_of(password);
        let old_vec: Option<Vec<char>> = match old_password {
            Option::Some(o) => Some(chars_of(o)),
            Option::None => None,
        };
        let user_vec: Option<Vec<char>> = match user {
            Option::Some(u) => Some(chars_of(u)),
            Option::None => None,
        };
        let old_ref: Option<&Vec<char>> = match &old_vec {
            Option::Some(v) => Some(v),
            Option::None => None,
        };
        let user_ref: Option<&Vec<char>> = match &user_vec {
            Option::Some(v) => Some(v),
            Option::None => None,
        };
        let r = check_chars(&self.pwq, &pw, old_ref, user_ref, dict_match);
        proof {
            assert(opt_vec_view(old_ref) == opt_str_view(old_password));
            assert(opt_vec_view(user_ref) == opt_str_view(user));
        }
        r
    }

    /// Generates a random password carrying `bits` bits of entropy
    /// (confined to the supported range) that passes `check` under the
    /// current settings with no previous password and no user name.
    /// Reports a random-source failure at once, and an exhausted attempt
    /// budget otherwise.
    pub fn generate(&self, bits: i32) -> (r: Result<String, PWQError>)
        ensures
            (match r {
                Result::Ok(pw) => {
                    &&& spec_check(
                        self@,
                        pw@,
                        Option::None,
                        Option::None,
                        Option::None,
                    ) matches CheckOutcome::Score(_)
                    &&& pw@.len() == spec_pw_len(bits)
                },
                Result::Err(e) => {
                    &&& (e.kind == ErrorKind::Rng || e.kind == ErrorKind::GenerationFailed)
                    &&& e.aux is None
                },
            }),
    {
        generate_password(&self.pwq, bits)
    }

    /// Sets the minimum number of characters in the new password that
    /// must not be present in the old password. Zero disables all
    /// old-password similarity checks except equality itself.
    pub fn min_diff(&mut self, value: i32)
        ensures
            final(self)@ == spec_set_int(old(self)@, IntSetting::DiffOk, value),
    {
        self.pwq.set_int_value(IntSetting::DiffOk, value)
    }

    /// The minimum number of new-password characters absent from the old.
    pub fn get_min_diff(&self) -> (r: i32)
        ensures
            r == spec_int_value(self@, IntSetting::DiffOk),
    {
        self.pwq.get_int_value(IntSetting::DiffOk)
    }

    /// Sets the minimum acceptable size for the new password. Any value
    /// below the base floor is replaced by the floor.
    pub fn min_length(&mut self, value: i32)
        ensures
            final(self)@ == spec_set_int(old(self)@, IntSetting::MinLength, value),
    {
        self.pwq.set_int_value(IntSetting::MinLength, value)
    }

    /// The minimum acceptable size for the new password.
    pub fn get_min_length(&self) -> (r: i32)
        ensures
            r == spec_int_value(self@, IntSetting::MinLength),
    {
        self.pwq.get_int_value(IntSetting::MinLength)
    }

    /// Sets the maximum credit for digits; a negative value is instead
    /// the minimum number of digits required.
    pub fn digit_credit(&mut self, value: i32)
        ensures
            final(self)@ == spec_set_int(old(self)@, IntSetting::DigCredit, value),
    {
        self.pwq.set_int_value(IntSetting::DigCredit, value)
    }

    /// The digit credit.
    pub fn get_digit_credit(&self) -> (r: i32)
        ensures
            r == spec_int_value(self@, IntSetting::DigCredit),
    {
        self.pwq.get_int_value(IntSetting::DigCredit)
    }

    /// Sets the maximum credit for uppercase letters; a negative value is
    /// instead the minimum number required.
    pub fn uppercase_credit(&mut self, value: i32)
        ensures
            final(self)@ == spec_set_int(old(self)@, IntSetting::UpCredit, value),
    {
        self.pwq.set_int_value(IntSetting::UpCredit, value)
    }

    /// The uppercase credit.
    pub fn get_uppercase_credit(&self) -> (r: i32)
        ensures
            r == spec_int_value(self@, IntSetting::UpCredit),
    {
        self.pwq.get_int_value(IntSetting::UpCredit)
    }

    /// Sets the maximum credit for lowercase letters; a negative value is
    /// instead the minimum number required.
    pub fn lowercase_credit(&mut self, value: i32)
        ensures
            final(self)@ == spec_set_int(old(self)@, IntSetting::LowCredit, value),
    {
        self.pwq.set_int_value(IntSetting::LowCredit, value)
    }

    /// The lowercase credit.
    pub fn get_lowercase_credit(&self) -> (r: i32)
        ensures
            r == spec_int_value(self@, IntSetting::LowCredit),
    {
        self.pwq.get_int_value(IntSetting::LowCredit)
    }

    /// Sets the maximum credit for other characters; a negative value is
    /// instead the minimum number required.
    pub fn other_credit(&mut self, value: i32)
        ensures
            final(self)@ == spec_set_int(old(self)@, IntSetting::OthCredit, value),
    {
        self.pwq.set_int_value(IntSetting::OthCredit, value)
    }

    /// The other-character credit.
    pub fn get_other_credit(&self) -> (r: i32)
        ensures
            r == spec_int_value(self@, IntSetting::OthCredit),
    {
        self.pwq.get_int_value(IntSetting::OthCredit)
    }

    /// Sets the minimum number of distinct character classes required,
    /// confined to the number of classes there are.
    pub fn min_class(&mut self, value: i32)
        ensures
            final(self)@ == spec_set_int(old(self)@, IntSetting::MinClass, value),
    {
        self.pwq.set_int_value(IntSetting::MinClass, value)
    }

    /// The minimum number of distinct character classes required.
    pub fn get_min_class(&self) -> (r: i32)
        ensures
            r == spec_int_value(self@, IntSetting::MinClass),
    {
        self.pwq.get_int_value(IntSetting::MinClass)
    }

    /// Sets the maximum allowed run of identical consecutive characters;
    /// zero disables the check.
    pub fn max_repeat(&mut self, value: i32)
        ensures
            final(self)@ == spec_set_int(old(self)@, IntSetting::MaxRepeat, value),
    {
        self.pwq.set_int_value(IntSetting::MaxRepeat, value)
    }

    /// The maximum allowed run of identical consecutive characters.
    pub fn get_max_repeat(&self) -> (r: i32)
        ensures
            r == spec_int_value(self@, IntSetting::MaxRepeat),
    {
        self.pwq.get_int_value(IntSetting::MaxRepeat)
    }

    /// Sets the maximum length of monotonic character sequences, such as
    /// ascending digits; zero disables the check.
    pub fn max_sequence(&mut self, value: i32)
        ensures
            final(self)@ == spec_set_int(old(self)@, IntSetting::MaxSequence, value),
    {
        self.pwq.set_int_value(IntSetting::MaxSequence, value)
    }

    /// The maximum length of monotonic character sequences.
    pub fn get_max_sequence(&self) -> (r: i32)
        ensures
            r == spec_int_value(self@, IntSetting::MaxSequence),
    {
        self.pwq.get_int_value(IntSetting::MaxSequence)
    }

    /// Sets the maximum allowed run of consecutive characters of the same
    /// class; zero disables the check.
    pub fn max_class_repeat(&mut self, value: i32)
        ensures
            final(self)@ == spec_set_int(old(self)@, IntSetting::MaxClassRepeat, value),
    {
        self.pwq.set_int_value(IntSetting::MaxClassRepeat, value)
    }

    /// The maximum allowed run of consecutive characters of one class.
    pub fn get_max_class_repeat(&self) -> (r: i32)
        ensures
            r == spec_int_value(self@, IntSetting::MaxClassRepeat),
    {
        self.pwq.get_int_value(IntSetting::MaxClassRepeat)
    }

    /// Sets whether to check the password against the words of the
    /// user's GECOS string.
    pub fn gecos_check(&mut self, check: bool)
        ensures
            final(self)@ == spec_set_int(
                old(self)@,
                IntSetting::GecosCheck,
                if check {
                    1i32
                } else {
                    0i32
                },
            ),
    {
        self.pwq.set_int_value(
            IntSetting::GecosCheck,
            if check {
                1
            } else {
                0
            },
        )
    }

    /// Whether the GECOS check is enabled.
    pub fn get_gecos_check(&self) -> (r: bool)
        ensures
            r == (spec_int_value(self@, IntSetting::GecosCheck) != 0),
    {
        self.pwq.get_int_value(IntSetting::GecosCheck) != 0
    }

    /// Sets whether to delegate to the external dictionary collaborator.
    pub fn dict_check(&mut self, check: bool)
        ensures
            final(self)@ == spec_set_int(
                old(self)@,
                IntSetting::DictCheck,
                if check {
                    1i32
                } else {
                    0i32
                },
            ),
    {
        self.pwq.set_int_value(
            IntSetting::DictCheck,
            if check {
                1
            } else {
                0
            },
        )
    }

    /// Whether the dictionary check is enabled.
    pub fn get_dict_check(&self) -> (r: bool)
        ensures
            r == (spec_int_value(self@, IntSetting::DictCheck) != 0),
    {
        self.pwq.get_int_value(IntSetting::DictCheck) != 0
    }

    /// Sets whether to check if the password contains the user name in
    /// some form.
    pub fn user_check(&mut self, check: bool)
        ensures
            final(self)@ == spec_set_int(
                old(self)@,
                IntSetting::UserCheck,
                if check {
                    1i32
                } else {
                    0i32
                },
            ),
    {
        self.pwq.set_int_value(
            IntSetting::UserCheck,
            if check {
                1
            } else {
                0
            },
        )
    }

    /// Whether the user-name check is enabled.
    pub fn get_user_check(&self) -> (r: bool)
        ensures
            r == (spec_int_value(self@, IntSetting::UserCheck) != 0),
    {
        self.pwq.get_int_value(IntSetting::UserCheck) != 0
    }

    /// Sets the length of user-name substrings to look for in the
    /// password; zero disables the substring search.
    pub fn user_substr(&mut self, value: i32)
        ensures
            final(self)@ == spec_set_int(old(self)@, IntSetting::UserSubstr, value),
    {
        self.pwq.set_int_value(IntSetting::UserSubstr, value)
    }

    /// The length of user-name substrings looked for in the password.
    pub fn get_user_substr(&self) -> (r: i32)
        ensures
            r == spec_int_value(self@, IntSetting::UserSubstr),
    {
        self.pwq.get_int_value(IntSetting::UserSubstr)
    }

    /// Sets whether violations are enforced rather than advisory. The
    /// checker reports the same violations either way; honoring the flag
    /// is the caller's concern.
    pub fn enforcing(&mut self, enforced: bool)
        ensures
            final(self)@ == spec_set_int(
                old(self)@,
                IntSetting::Enforcing,
                if enforced {
                    1i32
                } else {
                    0i32
                },
            ),
    {
        self.pwq.set_int_value(
            IntSetting::Enforcing,
            if enforced {
                1
            } else {
                0
            },
        )
    }

    /// Whether violations are enforced.
    pub fn get_enforcing(&self) -> (r: bool)
        ensures
            r == (spec_int_value(self@, IntSetting::Enforcing) != 0),
    {
        self.pwq.get_int_value(IntSetting::Enforcing) != 0
    }

    /// Sets the retry budget: how many prompts a caller should allow, and
    /// the floor of the generator's attempt budget.
    pub fn retry_times(&mut self, value: i32)
        ensures
            final(self)@ == spec_set_int(old(self)@, IntSetting::RetryTimes, value),
    {
        self.pwq.set_int_value(IntSetting::RetryTimes, value)
    }

    /// The retry budget.
    pub fn get_retry_times(&self) -> (r: i32)
        ensures
            r == spec_int_value(self@, IntSetting::RetryTimes),
    {
        self.pwq.get_int_value(IntSetting::RetryTimes)
    }

    /// Sets whether checks are enforced for the root user.
    pub fn enforce_for_root(&mut self, enforced: bool)
        ensures
            final(self)@ == spec_set_int(
                old(self)@,
                IntSetting::EnforceRoot,
                if enforced {
                    1i32
                } else {
                    0i32
                },
            ),
    {
        self.pwq.set_int_value(
            IntSetting::EnforceRoot,
            if enforced {
                1
            } else {
                0
            },
        )
    }

    /// Whether checks are enforced for the root user.
    pub fn get_enforce_for_root(&self) -> (r: bool)
        ensures
            r == (spec_int_value(self@, IntSetting::EnforceRoot) != 0),
    {
        self.pwq.get_int_value(IntSetting::EnforceRoot) != 0
    }

    /// Sets whether to skip checking users not present in the local
    /// user database.
    pub fn local_users_only(&mut self, local_only: bool)
        ensures
            final(self)@ == spec_set_int(
                old(self)@,
                IntSetting::LocalUsers,
                if local_only {
                    1i32
                } else {
                    0i32
                },
            ),
    {
        self.pwq.set_int_value(
            IntSetting::LocalUsers,
            if local_only {
                1
            } else {
                0
            },
        )
    }

    /// Whether only local users are checked.
    pub fn get_local_users_only(&self) -> (r: bool)
        ensures
            r == (spec_int_value(self@, IntSetting::LocalUsers) != 0),
    {
        self.pwq.get_int_value(IntSetting::LocalUsers) != 0
    }

    /// Sets the list of forbidden words, stored space-separated.
    pub fn bad_words(&mut self, words: &Vec<String>) -> (r: Result<(), PWQError>)
        ensures
            final(self)@ == spec_set_str(
                old(self)@,
                StrSetting::BadWords,
                join_words(words.deep_view()),
            ),
            r is Ok,
    {
        let n = words.len();
        let mut joined: Vec<char> = Vec::new();
        let mut i: usize = 0;
        while i < n
            invariant
                i <= n,
                n == words@.len(),
                joined@ == join_words(words.deep_view().take(i as int)),
            decreases n - i,
        {
            proof {
                assert(words.deep_view().take(i + 1).drop_last() =~= words.deep_view().take(
                    i as int,
                ));
                assert(words.deep_view().take(i + 1).last() == words.deep_view()[i as int]);
                assert(words.deep_view()[i as int] =~= words@[i as int]@);
            }
            if i > 0 {
                joined.push(' ');
            }
            let word = chars_of(words[i].as_str());
            let mut j: usize = 0;
            let wn = word.len();
            let ghost base = joined@;
            while j < wn
                invariant
                    j <= wn,
                    wn == word@.len(),
                    joined@ == base + word@.take(j as int),
                decreases wn - j,
            {
                joined.push(word[j]);
                j = j + 1;
                proof {
                    assert(base + word@.take(j - 1).push(word@[j - 1]) =~= base + word@.take(
                        j as int,
                    ));
                }
            }
            proof {
                assert(base + word@.take(wn as int) =~= base + word@);
                if i == 0 {
                    assert(joined@ =~= join_words(words.deep_view().take(i + 1)));
                } else {
                    assert(joined@ =~= join_words(words.deep_view().take(i as int)) + seq![' ']
                        + words.deep_view()[i as int]);
                }
            }
            i = i + 1;
        }
        proof {
            assert(words.deep_view().take(n as int) =~= words.deep_view());
        }
        self.pwq.set_str_value(StrSetting::BadWords, string_of_chars(&joined));
        Ok(())
    }

    /// The list of forbidden words, split back out of the store.
    pub fn get_bad_words(&self) -> (r: Result<Vec<String>, PWQError>)
        ensures
            r matches Ok(ws) && (ws.deep_view() == split_words(self@.bad_words)),
    {
        let chars = chars_of(self.pwq.bad_words.as_str());
        let words = split_words_vec(&chars);
        let n = words.len();
        let mut out: Vec<String> = Vec::new();
        let mut i: usize = 0;
        while i < n
            invariant
                i <= n,
                n == words@.len(),
                out@.len() == i,
                words.deep_view() == split_words(self@.bad_words),
                forall|k: int| 0 <= k < i ==> out@[k]@ == words.deep_view()[k],
            decreases n - i,
        {
            proof {
                assert(words.deep_view()[i as int] =~= words@[i as int]@);
            }
            out.push(string_of_chars(&words[i]));
            i = i + 1;
        }
        proof {
            assert(out.deep_view() =~~= split_words(self@.bad_words));
        }
        Ok(out)
    }

    /// Sets the path handed to the external dictionary collaborator.
    pub fn dict_path(&mut self, path: &str) -> (r: Result<(), PWQError>)
        ensures
            final(self)@ == spec_set_str(old(self)@, StrSetting::DictPath, path@),
            r is Ok,
    {
        let chars = chars_of(path);
        self.pwq.set_str_value(StrSetting::DictPath, string_of_chars(&chars));
        Ok(())
    }

    /// The path handed to the external dictionary collaborator.
    pub fn get_dict_path(&self) -> (r: Result<String, PWQError>)
        ensures
            r matches Ok(p) && (p@ == self@.dict_path),
    {
        Ok(self.pwq.get_str_value(StrSetting::DictPath))
    }
}

} // verus!
