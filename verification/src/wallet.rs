//! The decisions of the console wallet's bootstrap: which mode to run in,
//! whether to create, open or recover a wallet, where the password comes
//! from, and which base node to talk to. The prompting, file and terminal
//! work stays with the caller; every choice made on the answers is here.

use vstd::prelude::*;

use crate::protocol::bytes_eq;
use crate::protocol::copy_bytes;

verus! {

/// How a wallet comes up: freshly created, opened from an existing database,
/// or rebuilt from seed words.
#[derive(Clone, Copy, Debug, PartialEq, Eq, Structural)]
pub enum WalletBoot {
    /// Create a new wallet.
    New,
    /// Open the existing wallet.
    Existing,
    /// Recover a wallet from seed words.
    Recovery,
}

/// The command-line switches the bootstrap decisions read. Paths, passwords
/// and commands are carried as plain byte strings.
pub struct Cli {
    /// Run a wallet recovery.
    pub recovery: bool,
    /// Never prompt; fail where input would be needed.
    pub non_interactive_mode: bool,
    /// The password given on the command line, if any.
    pub password: Option<Vec<u8>>,
    /// A script file to execute, if any.
    pub input_file: Option<Vec<u8>>,
    /// A single command to execute, if any.
    pub command2: Option<Vec<u8>>,
}

/// The mode the wallet runs in.
pub enum WalletMode {
    /// The interactive terminal interface.
    Tui,
    /// Headless, driven over gRPC.
    Grpc,
    /// Execute the commands in a script file.
    Script(Vec<u8>),
    /// Execute one command.
    Command(Vec<u8>),
    /// Recovery driven without a terminal.
    RecoveryDaemon,
    /// Recovery with the terminal interface.
    RecoveryTui,
    /// No valid combination of switches.
    Invalid,
}

/// Determines which mode the wallet should run in: recovery modes take
/// precedence, then the combination of non-interactive flag, script file and
/// command decides between terminal, gRPC, script and command modes; giving
/// both a script and a command is invalid.
pub fn wallet_mode(cli: &Cli, boot_mode: WalletBoot) -> (r: WalletMode)
    ensures
        boot_mode is Recovery ==> r == (if cli.non_interactive_mode {
            WalletMode::RecoveryDaemon
        } else {
            WalletMode::RecoveryTui
        }),
        boot_mode !is Recovery ==> match (cli.input_file, cli.command2) {
            (Option::None, Option::None) => r == (if cli.non_interactive_mode {
                WalletMode::Grpc
            } else {
                WalletMode::Tui
            }),
            (Option::Some(path), Option::None) => r matches WalletMode::Script(p) && p@ == path@,
            (Option::None, Option::Some(command)) => r matches WalletMode::Command(c) && c@
                == command@,
            (Option::Some(_), Option::Some(_)) => r is Invalid,
        },
{
    if matches!(boot_mode, WalletBoot::Recovery) {
        if cli.non_interactive_mode {
            return WalletMode::RecoveryDaemon;
        } else {
            return WalletMode::RecoveryTui;
        }
    }
    match (&cli.input_file, &cli.command2) {
        (Option::None, Option::None) => {
            if cli.non_interactive_mode {
                WalletMode::Grpc
            } else {
                WalletMode::Tui
            }
        },
        (Option::Some(path), Option::None) => WalletMode::Script(copy_bytes(path)),
        (Option::None, Option::Some(command)) => WalletMode::Command(copy_bytes(command)),
        (Option::Some(_), Option::Some(_)) => WalletMode::Invalid,
    }
}

/// What the bootstrap decided before any prompting.
#[derive(Clone, Copy, Debug, PartialEq, Eq, Structural)]
pub enum BootCheck {
    /// Proceed straight into this boot mode.
    Proceed(WalletBoot),
    /// Refuse: recovery was forced but a wallet already exists.
    RefuseExistingWallet,
    /// Refuse: no wallet, no password, and prompting is not allowed.
    RefuseNonInteractive,
    /// Ask the user whether to create a new wallet or recover one.
    PromptUser,
}

/// Decides how to boot from what is known without prompting: forced recovery
/// is honoured only when no wallet exists yet; an existing wallet is opened;
/// a missing wallet is created when a password was supplied, refused when
/// prompting is forbidden, and otherwise left to the user's choice.
pub fn boot_check(recovery: bool, wallet_exists: bool, has_password: bool, non_interactive: bool)
    -> (r: BootCheck)
    ensures
        r == (if recovery {
            if wallet_exists {
                BootCheck::RefuseExistingWallet
            } else {
                BootCheck::Proceed(WalletBoot::Recovery)
            }
        } else if wallet_exists {
            BootCheck::Proceed(WalletBoot::Existing)
        } else if has_password {
            BootCheck::Proceed(WalletBoot::New)
        } else if non_interactive {
            BootCheck::RefuseNonInteractive
        } else {
            BootCheck::PromptUser
        }),
{
    if recovery {
        if wallet_exists {
            return BootCheck::RefuseExistingWallet;
        }
        return BootCheck::Proceed(WalletBoot::Recovery);
    }
    if wallet_exists {
        BootCheck::Proceed(WalletBoot::Existing)
    } else if has_password {
        BootCheck::Proceed(WalletBoot::New)
    } else if non_interactive {
        BootCheck::RefuseNonInteractive
    } else {
        BootCheck::PromptUser
    }
}

/// Whether a line answers the new-or-recover prompt, and how: `1`, `c`,
/// `n` and `create` choose a new wallet; `2`, `r`, `s` and `recover` choose
/// recovery; anything else repeats the prompt.
pub open spec fn boot_choice_spec(s: Seq<u8>) -> Option<WalletBoot> {
    if s == seq![49u8] || s == seq![99u8] || s == seq![110u8] || s == seq![
        99u8,
        114u8,
        101u8,
        97u8,
        116u8,
        101u8,
    ] {
        Some(WalletBoot::New)
    } else if s == seq![50u8] || s == seq![114u8] || s == seq![115u8] || s == seq![
        114u8,
        101u8,
        99u8,
        111u8,
        118u8,
        101u8,
        114u8,
    ] {
        Some(WalletBoot::Recovery)
    } else {
        None
    }
}

/// Parses one line typed at the new-or-recover prompt.
pub fn parse_boot_choice(line: &Vec<u8>) -> (r: Option<WalletBoot>)
    ensures
        r == boot_choice_spec(line@),
{
    let mut create: Vec<u8> = Vec::new();
    create.push(99u8);
    create.push(114u8);
    create.push(101u8);
    create.push(97u8);
    create.push(116u8);
    create.push(101u8);
    let mut recover: Vec<u8> = Vec::new();
    recover.push(114u8);
    recover.push(101u8);
    recover.push(99u8);
    recover.push(111u8);
    recover.push(118u8);
    recover.push(101u8);
    recover.push(114u8);
    proof {
        assert(create@ =~= seq![99u8, 114u8, 101u8, 97u8, 116u8, 101u8]);
        assert(recover@ =~= seq![114u8, 101u8, 99u8, 111u8, 118u8, 101u8, 114u8]);
    }
    if line.len() == 1 {
        let c = line[0];
        proof {
            assert(line@ =~= seq![line@[0]]);
        }
        if c == 49u8 || c == 99u8 || c == 110u8 {
            return Some(WalletBoot::New);
        }
        if c == 50u8 || c == 114u8 || c == 115u8 {
            return Some(WalletBoot::Recovery);
        }
        proof {
            seq_singleton_distinct(line@);
        }
        return None;
    }
    if bytes_eq(line, &create) {
        return Some(WalletBoot::New);
    }
    if bytes_eq(line, &recover) {
        return Some(WalletBoot::Recovery);
    }
    proof {
        seq_len_distinct(line@);
    }
    None
}

/// A sequence of one byte differs from every singleton of another byte and
/// from every sequence of another length.
proof fn seq_singleton_distinct(s: Seq<u8>)
    requires
        s.len() == 1,
    ensures
        forall|c: u8| s[0] != c ==> s != #[trigger] seq![c],
        forall|t: Seq<u8>| t.len() != 1 ==> s != t,
{
    assert forall|c: u8| s[0] != c implies s != #[trigger] seq![c] by {
        assert(seq![c][0] == c);
    }
}

/// Sequences of different lengths differ.
proof fn seq_len_distinct(s: Seq<u8>)
    ensures
        forall|t: Seq<u8>| s.len() != #[trigger] t.len() ==> s != t,
{
}

/// The lower-case form of an ASCII byte; other bytes are unchanged.
pub open spec fn ascii_lower(b: u8) -> u8 {
    if 65u8 <= b <= 90u8 {
        (b + 32) as u8
    } else {
        b
    }
}

/// Whether a typed line confirms the seed-words notice: its ASCII
/// lower-casing must read `confirm`.
pub fn confirms_seed_words(line: &Vec<u8>) -> (r: bool)
    ensures
        r == (line@.map_values(|b: u8| ascii_lower(b)) == seq![
            99u8,
            111u8,
            110u8,
            102u8,
            105u8,
            114u8,
            109u8,
        ]),
{
    let expected: [u8; 7] = [99u8, 111u8, 110u8, 102u8, 105u8, 114u8, 109u8];
    let ghost target: Seq<u8> = seq![99u8, 111u8, 110u8, 102u8, 105u8, 114u8, 109u8];
    let ghost lowered = line@.map_values(|b: u8| ascii_lower(b));
    if line.len() != 7 {
        proof {
            assert(lowered.len() == line@.len());
        }
        return false;
    }
    let mut i: usize = 0;
    while i < 7
        invariant
            i <= 7,
            line@.len() == 7,
            lowered == line@.map_values(|b: u8| ascii_lower(b)),
            target == seq![99u8, 111u8, 110u8, 102u8, 105u8, 114u8, 109u8],
            expected@ == target,
            forall|j: int| 0 <= j < i ==> lowered[j] == target[j],
        decreases 7 - i,
    {
        let b = line[i];
        let lower: u8 = if b >= 65u8 && b <= 90u8 {
            b + 32
        } else {
            b
        };
        proof {
            assert(lowered[i as int] == ascii_lower(line@[i as int]));
        }
        if lower != expected[i] {
            proof {
                assert(lowered[i as int] != target[i as int]);
            }
            return false;
        }
        i = i + 1;
    }
    proof {
        assert(lowered =~= target);
    }
    true
}

/// Where the wallet password comes from.
#[derive(Clone, Copy, Debug, PartialEq, Eq, Structural)]
pub enum PasswordSource {
    /// Use the password given on the command line.
    FromArg,
    /// Use the password found in the environment.
    FromEnv,
    /// Use the password found in the configuration.
    FromConfig,
    /// Nothing was supplied: the user must be prompted.
    MustPrompt,
}

/// Picks the wallet password's source: the command line wins, then the
/// environment, then the configuration; only when all three are empty is the
/// user prompted.
pub fn select_password_source(has_arg: bool, has_env: bool, has_config: bool) -> (r:
    PasswordSource)
    ensures
        r == (if has_arg {
            PasswordSource::FromArg
        } else if has_env {
            PasswordSource::FromEnv
        } else if has_config {
            PasswordSource::FromConfig
        } else {
            PasswordSource::MustPrompt
        }),
{
    if has_arg {
        PasswordSource::FromArg
    } else if has_env {
        PasswordSource::FromEnv
    } else if has_config {
        PasswordSource::FromConfig
    } else {
        PasswordSource::MustPrompt
    }
}

/// Picks the base node to use: a custom peer in the configuration wins
/// outright; otherwise the custom peer stored in the wallet database is the
/// starting point, and a locally detected base node may replace it — only in
/// interactive runs, only when it is not already the stored peer, and only
/// with the user's consent, in which case it is also stored. Returns the
/// chosen peer's public key and whether to store the detected one.
pub fn select_base_node_peer(
    config_custom: Option<Vec<u8>>,
    db_custom: Option<Vec<u8>>,
    detected: Option<Vec<u8>>,
    non_interactive: bool,
    accept_detected: bool,
) -> (r: (Option<Vec<u8>>, bool))
    ensures
        ({
            let consider = !non_interactive && config_custom is None && detected is Some;
            let base = if config_custom is Some {
                config_custom
            } else {
                db_custom
            };
            if consider {
                let d = detected->0;
                if base matches Some(k) && k@ == d@ {
                    r.0 == base && r.1 == false
                } else if accept_detected {
                    (r.0 matches Some(k) && k@ == d@) && r.1 == true
                } else {
                    r.0 == base && r.1 == false
                }
            } else {
                r.0 == base && r.1 == false
            }
        }),
{
    let consider = !non_interactive && config_custom.is_none() && detected.is_some();
    let base = if config_custom.is_some() {
        config_custom
    } else {
        db_custom
    };
    if consider {
        let d = match detected {
            Some(d) => d,
            None => {
                return (base, false);
            },
        };
        match &base {
            Some(k) => {
                if bytes_eq(k, &d) {
                    return (base, false);
                }
            },
            None => {},
        }
        if accept_detected {
            return (Some(d), true);
        }
        (base, false)
    } else {
        (base, false)
    }
}

} // verus!
