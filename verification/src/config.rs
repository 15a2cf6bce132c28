//! The three settings without which the agent does not start: the credential
//! for the transport, and the ids of the managed community and channel.

use vstd::prelude::*;
use vstd::string::StrSliceExecFns;
use crate::message::TargetScope;

verus! {

/// Why the settings were refused. Any of these ends the start-up.
#[derive(Clone, Copy, Debug, PartialEq, Eq)]
pub enum ConfigError {
    /// No credential was given.
    MissingCredential,
    /// No community id was given.
    MissingCommunity,
    /// No channel id was given.
    MissingChannel,
    /// The community id is not an unsigned decimal number of 64 bits.
    MalformedCommunity,
    /// The channel id is not an unsigned decimal number of 64 bits.
    MalformedChannel,
}

/// The settings of a running agent.
#[derive(Debug)]
pub struct Settings {
    pub credential: String,
    pub scope: TargetScope,
}

/// Whether `c` is one of the digits `0` to `9`.
pub open spec fn is_digit(c: char) -> bool {
    '0' <= c <= '9'
}

/// Whether `digits` holds nothing but the digits `0` to `9`.
pub open spec fn all_digits(digits: Seq<char>) -> bool {
    forall|i: int| 0 <= i < digits.len() ==> is_digit(#[trigger] digits[i])
}

/// The number that `digits` writes in base ten.
pub open spec fn decimal_value(digits: Seq<char>) -> int
    decreases digits.len(),
{
    if digits.len() == 0 {
        0
    } else {
        decimal_value(digits.drop_last()) * 10 + (digits.last() as int - '0' as int)
    }
}

/// `text` without the plus sign that may lead it.
pub open spec fn unsigned_part(text: Seq<char>) -> Seq<char> {
    if text.len() > 0 && text[0] == '+' {
        text.drop_first()
    } else {
        text
    }
}

/// The id that `text` writes: an optional plus sign, then one or more digits
/// whose value fits in 64 bits. Anything else writes no id.
pub open spec fn parsed_id(text: Seq<char>) -> Option<u64> {
    let digits = unsigned_part(text);
    if digits.len() > 0 && all_digits(digits) && decimal_value(digits) <= u64::MAX {
        Some(decimal_value(digits) as u64)
    } else {
        None
    }
}

/// More digits never write a smaller number.
proof fn lemma_value_grows(digits: Seq<char>, upto: int)
    requires
        all_digits(digits),
        0 <= upto <= digits.len(),
    ensures
        0 <= decimal_value(digits.take(upto)) <= decimal_value(digits),
    decreases digits.len() - upto,
{
    lemma_value_not_negative(digits.take(upto));
    if upto < digits.len() {
        lemma_value_grows(digits, upto + 1);
        let longer = digits.take(upto + 1);
        assert(longer.drop_last() =~= digits.take(upto));
        assert(is_digit(digits[upto]));
        assert(longer.last() == digits[upto]);
    } else {
        assert(digits.take(upto) =~= digits);
    }
}

/// Digits write no negative number.
proof fn lemma_value_not_negative(digits: Seq<char>)
    requires
        all_digits(digits),
    ensures
        0 <= decimal_value(digits),
    decreases digits.len(),
{
    if digits.len() > 0 {
        assert(is_digit(digits.last()));
        assert forall|i: int| 0 <= i < digits.drop_last().len() implies is_digit(
            #[trigger] digits.drop_last()[i],
        ) by {
            assert(digits.drop_last()[i] == digits[i]);
        }
        lemma_value_not_negative(digits.drop_last());
    }
}

/// Reads an id: an unsigned decimal number of 64 bits, which a plus sign may
/// lead.
pub fn parse_id(text: &str) -> (id: Option<u64>)
    ensures
        id == parsed_id(text@),
{
    let len = text.unicode_len();
    let mut i: usize = 0;
    if len > 0 && text.get_char(0) == '+' {
        i = 1;
    }
    let start = i;
    let ghost digits = unsigned_part(text@);
    assert(digits =~= text@.subrange(start as int, len as int));
    if i == len {
        return None;
    }
    let mut value: u64 = 0;
    assert(digits.take(0) =~= Seq::<char>::empty());
    while i < len
        invariant
            start <= i <= len,
            len == text@.len(),
            digits == text@.subrange(start as int, len as int),
            digits == unsigned_part(text@),
            all_digits(digits.take(i - start)),
            value == decimal_value(digits.take(i - start)),
        decreases len - i,
    {
        let c = text.get_char(i);
        let ghost seen = digits.take(i - start);
        let ghost longer = digits.take(i - start + 1);
        assert(digits[i - start] == c);
        assert(longer.drop_last() =~= seen);
        assert(longer.last() == c);
        if c < '0' || c > '9' {
            assert(!is_digit(digits[i - start]));
            return None;
        }
        assert(all_digits(longer)) by {
            assert forall|k: int| 0 <= k < longer.len() implies is_digit(#[trigger] longer[k]) by {
                if k < seen.len() {
                    assert(longer[k] == seen[k]);
                }
            }
        }
        let digit: u64 = (c as u32 - '0' as u32) as u64;
        let grown = match value.checked_mul(10) {
            Some(tens) => tens.checked_add(digit),
            None => None,
        };
        match grown {
            Some(next) => {
                value = next;
            },
            None => {
                assert(decimal_value(longer) > u64::MAX);
                proof {
                    if all_digits(digits) {
                        lemma_value_grows(digits, i - start + 1);
                    }
                }
                return None;
            },
        }
        i += 1;
    }
    assert(digits.take(len - start) =~= digits);
    Some(value)
}

/// What the three settings amount to: the credential and the scope where all
/// three are given and both ids are well written; else the first fault, in
/// the order credential, community, channel for what is missing, then
/// community, channel for what is malformed.
pub open spec fn checked_settings(
    credential: Option<String>,
    community: Option<String>,
    channel: Option<String>,
) -> Result<(Seq<char>, TargetScope), ConfigError> {
    if credential is None {
        Err(ConfigError::MissingCredential)
    } else if community is None {
        Err(ConfigError::MissingCommunity)
    } else if channel is None {
        Err(ConfigError::MissingChannel)
    } else if parsed_id(community->0@) is None {
        Err(ConfigError::MalformedCommunity)
    } else if parsed_id(channel->0@) is None {
        Err(ConfigError::MalformedChannel)
    } else {
        Ok(
            (
                credential->0@,
                TargetScope {
                    community_id: parsed_id(community->0@)->0,
                    channel_id: parsed_id(channel->0@)->0,
                },
            ),
        )
    }
}

impl Settings {
    /// Checks the three settings as the environment gave them; `None` stands
    /// for one that is not set.
    pub fn load(credential: Option<String>, community: Option<String>, channel: Option<String>) -> (loaded:
        Result<Settings, ConfigError>)
        ensures
            match loaded {
                Ok(settings) => checked_settings(credential, community, channel) == Ok::<
                    (Seq<char>, TargetScope),
                    ConfigError,
                >((settings.credential@, settings.scope)),
                Err(fault) => checked_settings(credential, community, channel) == Err::<
                    (Seq<char>, TargetScope),
                    ConfigError,
                >(fault),
            },
    {
        let credential = match credential {
            Some(credential) => credential,
            None => return Err(ConfigError::MissingCredential),
        };
        let community = match community {
            Some(community) => community,
            None => return Err(ConfigError::MissingCommunity),
        };
        let channel = match channel {
            Some(channel) => channel,
            None => return Err(ConfigError::MissingChannel),
        };
        let community_id = match parse_id(community.as_str()) {
            Some(id) => id,
            None => return Err(ConfigError::MalformedCommunity),
        };
        let channel_id = match parse_id(channel.as_str()) {
            Some(id) => id,
            None => return Err(ConfigError::MalformedChannel),
        };
        Ok(Settings { credential, scope: TargetScope { community_id, channel_id } })
    }
}

} // verus!
