//! The server instances: what each is called, who may command it and which fork it runs.
use rand::distr::SampleString;
use vstd::prelude::*;

use crate::table::{Table, distinct_names};

verus! {

/// How an instance is configured.
pub struct InstanceConfig {
    pub name: String,
    pub token: String,
    pub port: u16,
    pub fork: String,
}

/// A server instance. `token` is known to operators; `internal_token` only to the running
/// server and changes with every launch.
pub struct Instance {
    pub name: String,
    pub token: String,
    pub port: u16,
    pub fork: String,
    pub internal_token: String,
}

/// What an instance is told to do.
#[derive(Clone, Copy, Debug, PartialEq, Eq, Structural)]
pub enum InstanceMessage {
    Restart,
    Stop,
    Ping,
    ForkChanged,
}

/// The number of characters of an internal token.
pub const TOKEN_LENGTH: usize = 64;

/// Whether `c` is an ASCII letter or digit.
pub open spec fn is_alphanumeric(c: char) -> bool {
    ('a' <= c && c <= 'z') || ('A' <= c && c <= 'Z') || ('0' <= c && c <= '9')
}

/// Whether `s` has the form of an internal token.
pub open spec fn is_token(s: Seq<char>) -> bool {
    s.len() == TOKEN_LENGTH && forall|i: int| 0 <= i < s.len() ==> is_alphanumeric(#[trigger] s[i])
}

/// `SampleString::sample_string` of `rand`'s `Alphanumeric` on the thread's generator: a text
/// of `len` ASCII letters and digits. Which ones is left to chance; that every draw is equally
/// likely is not stated.
#[verifier::external_body]
fn random_alphanumeric(len: usize) -> (text: String)
    requires
        len <= isize::MAX,
    ensures
        text@.len() == len,
        forall|i: int| 0 <= i < text@.len() ==> is_alphanumeric(#[trigger] text@[i]),
{
    rand::distr::Alphanumeric.sample_string(&mut rand::rng(), len)
}

/// Draws a new internal token.
pub fn fresh_token() -> (token: String)
    ensures
        is_token(token@),
{
    random_alphanumeric(TOKEN_LENGTH)
}

impl Instance {
    /// The instance that `config` describes, with the given internal token.
    pub fn with_token(config: &InstanceConfig, token: String) -> (instance: Instance)
        ensures
            instance.is_made_of(*config, token@),
    {
        Instance {
            name: config.name.clone(),
            token: config.token.clone(),
            port: config.port,
            fork: config.fork.clone(),
            internal_token: token,
        }
    }

    /// Whether `self` is the instance that `config` describes, with the internal token `token`.
    pub open spec fn is_made_of(self, config: InstanceConfig, token: Seq<char>) -> bool {
        &&& self.name@ == config.name@
        &&& self.token@ == config.token@
        &&& self.port == config.port
        &&& self.fork@ == config.fork@
        &&& self.internal_token@ == token
    }

    /// Whether `self` is the instance that `config` describes, with some internal token.
    pub open spec fn follows(self, config: InstanceConfig) -> bool {
        self.is_made_of(config, self.internal_token@) && is_token(self.internal_token@)
    }

    /// Whether `self` is `other` with the internal token `token`.
    pub open spec fn retokened(self, other: Instance, token: Seq<char>) -> bool {
        &&& self.name@ == other.name@
        &&& self.token@ == other.token@
        &&& self.port == other.port
        &&& self.fork@ == other.fork@
        &&& self.internal_token@ == token
    }

    /// Whether `self` is `other` assigned to `fork`.
    pub open spec fn reassigned(self, other: Instance, fork: Seq<char>) -> bool {
        &&& self.name@ == other.name@
        &&& self.token@ == other.token@
        &&& self.port == other.port
        &&& self.fork@ == fork
        &&& self.internal_token@ == other.internal_token@
    }
}

/// All instances, by id.
pub struct InstanceManager {
    pub instances: Table<Instance>,
}

impl InstanceManager {
    /// Sets up the configured instances, each with the internal token at its place in `tokens`.
    pub fn with_tokens(configs: &Table<InstanceConfig>, tokens: &Vec<String>) -> (manager: Self)
        requires
            tokens@.len() == configs.rows().len(),
        ensures
            manager.instances.rows().len() == configs.rows().len(),
            forall|i: int|
                0 <= i < configs.rows().len() ==> (#[trigger] manager.instances.rows()[i]).0
                    == configs.rows()[i].0 && manager.instances.rows()[i].1.is_made_of(
                    configs.rows()[i].1,
                    tokens@[i]@,
                ),
            manager.instances@.dom() == configs@.dom(),
    {
        let mut instances: Table<Instance> = Table::new();
        let count = configs.len();
        let mut i: usize = 0;
        while i < count
            invariant
                configs.wf(),
                distinct_names(configs.rows()),
                count == configs.rows().len(),
                tokens@.len() == count,
                i <= count,
                instances.rows().len() == i,
                forall|j: int|
                    0 <= j < i ==> (#[trigger] instances.rows()[j]).0 == configs.rows()[j].0
                        && instances.rows()[j].1.is_made_of(configs.rows()[j].1, tokens@[j]@),
            decreases count - i,
        {
            let instance = Instance::with_token(configs.value_at(i), tokens[i].clone());
            assert(!instances@.contains_key(configs.rows()[i as int].0));
            instances.insert(configs.name_at(i).clone(), instance);
            i = i + 1;
        }
        let manager = InstanceManager { instances };
        proof {
            assert forall|key: Seq<char>|
                manager.instances@.contains_key(key) == configs@.contains_key(key) by {
                if configs@.contains_key(key) {
                    let j = crate::table::entry_index(configs.rows(), key);
                    assert(manager.instances.rows()[j].0 == key);
                }
                if manager.instances@.contains_key(key) {
                    let j = crate::table::entry_index(manager.instances.rows(), key);
                    assert(configs.rows()[j].0 == key);
                }
            }
            assert(manager.instances@.dom() =~= configs@.dom());
        }
        manager
    }

    /// Sets up the configured instances, each with an internal token that is drawn for it. That
    /// the draws are separate is not stated: what they give is left to chance.
    pub fn new(configs: &Table<InstanceConfig>) -> (manager: Self)
        ensures
            manager.instances.rows().len() == configs.rows().len(),
            forall|i: int|
                0 <= i < configs.rows().len() ==> (#[trigger] manager.instances.rows()[i]).0
                    == configs.rows()[i].0 && manager.instances.rows()[i].1.follows(
                    configs.rows()[i].1,
                ),
            manager.instances@.dom() == configs@.dom(),
    {
        let count = configs.len();
        let mut tokens: Vec<String> = Vec::new();
        while tokens.len() < count
            invariant
                tokens@.len() <= count,
                forall|i: int| 0 <= i < tokens@.len() ==> is_token(#[trigger] tokens@[i]@),
            decreases count - tokens@.len(),
        {
            tokens.push(fresh_token());
        }
        Self::with_tokens(configs, &tokens)
    }

    /// Gives the instance `id` this internal token. The token it had before is forgotten.
    pub fn install_token(&mut self, id: &str, token: String) -> (known: bool)
        ensures
            known == old(self).instances@.contains_key(id@),
            known ==> {
                &&& final(self).instances@ == old(self).instances@.insert(
                    id@,
                    final(self).instances@[id@],
                )
                &&& final(self).instances@[id@].retokened(old(self).instances@[id@], token@)
            },
            !known ==> *final(self) == *old(self),
    {
        let retokened = match self.instances.get(id) {
            None => {
                return false;
            },
            Some(instance) => Instance {
                name: instance.name.clone(),
                token: instance.token.clone(),
                port: instance.port,
                fork: instance.fork.clone(),
                internal_token: token,
            },
        };
        self.instances.insert(id.to_owned(), retokened);
        true
    }

    /// Assigns the instance `id` to another fork.
    pub fn assign_fork(&mut self, id: &str, fork: &str) -> (known: bool)
        ensures
            known == old(self).instances@.contains_key(id@),
            known ==> {
                &&& final(self).instances@ == old(self).instances@.insert(
                    id@,
                    final(self).instances@[id@],
                )
                &&& final(self).instances@[id@].reassigned(old(self).instances@[id@], fork@)
            },
            !known ==> *final(self) == *old(self),
    {
        let reassigned = match self.instances.get(id) {
            None => {
                return false;
            },
            Some(instance) => Instance {
                name: instance.name.clone(),
                token: instance.token.clone(),
                port: instance.port,
                fork: fork.to_owned(),
                internal_token: instance.internal_token.clone(),
            },
        };
        self.instances.insert(id.to_owned(), reassigned);
        true
    }
}

/// An internal token has 64 characters, each an ASCII letter or digit.
pub proof fn tokens_are_letters_and_digits(token: Seq<char>)
    ensures
        is_token(token) <==> token.len() == 64 && forall|i: int|
            0 <= i < token.len() ==> is_letter_or_digit_code(#[trigger] token[i] as int),
{
    assert forall|i: int| 0 <= i < token.len() implies is_alphanumeric(#[trigger] token[i])
        == is_letter_or_digit_code(token[i] as int) by {}
}

/// Whether `code` is that of an ASCII digit, capital or small letter.
pub open spec fn is_letter_or_digit_code(code: int) -> bool {
    48 <= code <= 57 || 65 <= code <= 90 || 97 <= code <= 122
}

/// An instance that gets a token or a fork keeps all else that it is. So the order of the two does
/// not matter, and of two tokens or two forks the later counts.
pub proof fn token_and_fork_are_independent(
    start: Instance,
    middle: Instance,
    end: Instance,
    token: Seq<char>,
    fork: Seq<char>,
)
    requires
        (middle.retokened(start, token) && end.reassigned(middle, fork)) || (middle.reassigned(
            start,
            fork,
        ) && end.retokened(middle, token)),
    ensures
        end.internal_token@ == token,
        end.fork@ == fork,
        end.name@ == start.name@,
        end.token@ == start.token@,
        end.port == start.port,
{
}

/// An instance that was set up is as configured, and its internal token is that which it was given.
pub proof fn instances_are_as_configured(instance: Instance, config: InstanceConfig, token: Seq<char>)
    requires
        instance.is_made_of(config, token),
    ensures
        instance.name@ == config.name@,
        instance.token@ == config.token@,
        instance.port == config.port,
        instance.fork@ == config.fork@,
        instance.internal_token@ == token,
        instance.follows(config) <==> is_token(token),
{
}

} // verus!
