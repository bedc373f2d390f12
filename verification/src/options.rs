//! The command line of the tool that builds the image.

use vstd::prelude::*;
use crate::attempt::{lemma_try_all, lemma_try_fold_failed, lemma_try_fold_next, try_fold};
use crate::game::{version_named, GameId, GameVersion};
use crate::symbols::{name_views, same_name};

verus! {

/// What the command line asks for.
#[derive(Debug, Clone, PartialEq, Eq)]
pub struct Config {
    pub out_path: String,
    pub uncomp_rom_path: String,
    pub elf_path: String,
    pub symbol_out: bool,
    pub game_id: GameId,
}

/// A `Config` as a plain value.
pub struct ConfigView {
    pub out_path: Seq<char>,
    pub uncomp_rom_path: Seq<char>,
    pub elf_path: Seq<char>,
    pub symbol_out: bool,
    pub game_id: GameId,
}

impl View for Config {
    type V = ConfigView;

    open spec fn view(&self) -> ConfigView {
        ConfigView {
            out_path: self.out_path@,
            uncomp_rom_path: self.uncomp_rom_path@,
            elf_path: self.elf_path@,
            symbol_out: self.symbol_out,
            game_id: self.game_id,
        }
    }
}

/// What is wrong with a command line.
#[derive(Debug, Clone, PartialEq, Eq)]
pub enum ArgsError {
    /// There is no argument at all.
    NoOutputPath,
    /// There is one argument only.
    NoInputRomPath,
    /// There are two arguments only.
    NoInputElfPath,
    /// What follows the option for the release names no release.
    UnknownVersion { arg: String },
    /// An argument before the paths is no option.
    UnknownOption { arg: String },
    /// Nothing follows the option for the release.
    MissingVersion,
}

/// An `ArgsError` as a plain value.
pub enum ArgsFault {
    NoOutputPath,
    NoInputRomPath,
    NoInputElfPath,
    UnknownVersion { arg: Seq<char> },
    UnknownOption { arg: Seq<char> },
    MissingVersion,
}

impl View for ArgsError {
    type V = ArgsFault;

    open spec fn view(&self) -> ArgsFault {
        match *self {
            ArgsError::NoOutputPath => ArgsFault::NoOutputPath,
            ArgsError::NoInputRomPath => ArgsFault::NoInputRomPath,
            ArgsError::NoInputElfPath => ArgsFault::NoInputElfPath,
            ArgsError::UnknownVersion { arg } => ArgsFault::UnknownVersion { arg: arg@ },
            ArgsError::UnknownOption { arg } => ArgsFault::UnknownOption { arg: arg@ },
            ArgsError::MissingVersion => ArgsFault::MissingVersion,
        }
    }
}

/// What the options read so far have set: whether the next argument is
/// to name the release, whether the list of symbols is asked for, and
/// the release.
pub struct Chosen {
    pub awaits_version: bool,
    pub symbol_out: bool,
    pub version: GameVersion,
}

/// What is set before any option is read: the image is asked for, of the
/// first American release.
pub open spec fn chosen_at_first() -> Chosen {
    Chosen { awaits_version: false, symbol_out: false, version: GameVersion::USA }
}

/// What is set once one more argument `arg` is read.
pub open spec fn choose_next(chosen: Chosen, arg: Seq<char>) -> Result<Chosen, ArgsFault> {
    if chosen.awaits_version {
        match version_named(arg) {
            Some(version) => Ok(
                Chosen { awaits_version: false, symbol_out: chosen.symbol_out, version },
            ),
            None => Err(ArgsFault::UnknownVersion { arg }),
        }
    } else if arg == "-v"@ || arg == "--version"@ {
        Ok(Chosen { awaits_version: true, symbol_out: chosen.symbol_out, version: chosen.version })
    } else if arg == "-s"@ || arg == "--symbols"@ {
        Ok(Chosen { awaits_version: false, symbol_out: true, version: chosen.version })
    } else {
        Err(ArgsFault::UnknownOption { arg })
    }
}

/// `choose_next` as a value.
pub open spec fn chooser() -> spec_fn(Chosen, Seq<char>) -> Result<Chosen, ArgsFault> {
    |chosen: Chosen, arg: Seq<char>| choose_next(chosen, arg)
}

/// The arguments that are read as options: all but the first, which
/// names the program, and the last three, which are the paths.
pub open spec fn option_args(args: Seq<Seq<char>>) -> Seq<Seq<char>>
    recommends
        args.len() >= 3,
{
    if args.len() >= 4 {
        args.subrange(1, args.len() - 3)
    } else {
        Seq::empty()
    }
}

/// What the command line `args` asks for. The last three arguments are
/// the paths of the linked program, of the uncompressed image and of
/// the output; the arguments between the name of the program and the
/// paths are options, read from left to right.
pub open spec fn config_of(args: Seq<Seq<char>>) -> Result<ConfigView, ArgsFault> {
    if args.len() == 0 {
        Err(ArgsFault::NoOutputPath)
    } else if args.len() == 1 {
        Err(ArgsFault::NoInputRomPath)
    } else if args.len() == 2 {
        Err(ArgsFault::NoInputElfPath)
    } else {
        match try_fold(chosen_at_first(), option_args(args), chooser()) {
            Err(fault) => Err(fault),
            Ok(chosen) => if chosen.awaits_version {
                Err(ArgsFault::MissingVersion)
            } else {
                Ok(
                    ConfigView {
                        out_path: args[args.len() - 1],
                        uncomp_rom_path: args[args.len() - 2],
                        elf_path: args[args.len() - 3],
                        symbol_out: chosen.symbol_out,
                        game_id: GameId::BanjoKazooie(chosen.version),
                    },
                )
            },
        }
    }
}

impl Config {
    /// Reads the command line. `args` are all the arguments, the name of
    /// the program first.
    pub fn form_args(args: Vec<String>) -> (read: Result<Config, ArgsError>)
        ensures
            match config_of(name_views(args@)) {
                Ok(view) => read matches Ok(config) && config@ == view,
                Err(fault) => read matches Err(e) && e@ == fault,
            },
    {
        let ghost all = name_views(args@);
        let mut rest = args;
        let out_path = match rest.pop() {
            None => {
                return Err(ArgsError::NoOutputPath);
            },
            Some(path) => path,
        };
        let uncomp_rom_path = match rest.pop() {
            None => {
                return Err(ArgsError::NoInputRomPath);
            },
            Some(path) => path,
        };
        let elf_path = match rest.pop() {
            None => {
                return Err(ArgsError::NoInputElfPath);
            },
            Some(path) => path,
        };
        let ghost options = option_args(all);
        let ghost step = chooser();
        let n: usize = if rest.len() >= 1 {
            rest.len() - 1
        } else {
            0
        };
        proof {
            assert(options.len() == n);
            assert forall|k: int| 0 <= k < n implies options[k] == rest@[k + 1]@ by {}
        }
        let mut awaits_version = false;
        let mut symbol_out = false;
        let mut version = GameVersion::USA;
        let mut i: usize = 0;
        while i < n
            invariant
                i <= n,
                options.len() == n,
                n + 1 <= rest@.len() || n == 0,
                all == name_views(args@),
                forall|k: int| 0 <= k < n ==> options[k] == rest@[k + 1]@,
                step == chooser(),
                try_fold(chosen_at_first(), options.take(i as int), step) == Ok::<
                    Chosen,
                    ArgsFault,
                >(Chosen { awaits_version, symbol_out, version }),
                options == option_args(all),
                all.len() >= 3,
                out_path@ == all[all.len() - 1],
                uncomp_rom_path@ == all[all.len() - 2],
                elf_path@ == all[all.len() - 3],
            decreases n - i,
        {
            proof {
                lemma_try_fold_next(chosen_at_first(), options, step, i as int);
            }
            let arg = rest[i + 1].as_str();
            if awaits_version {
                match GameVersion::from_name(arg) {
                    Some(named) => {
                        version = named;
                        awaits_version = false;
                    },
                    None => {
                        proof {
                            lemma_try_fold_failed(chosen_at_first(), options, step, i + 1);
                        }
                        return Err(ArgsError::UnknownVersion { arg: arg.to_owned() });
                    },
                }
            } else if same_name(arg, "-v") || same_name(arg, "--version") {
                awaits_version = true;
            } else if same_name(arg, "-s") || same_name(arg, "--symbols") {
                symbol_out = true;
            } else {
                proof {
                    lemma_try_fold_failed(chosen_at_first(), options, step, i + 1);
                }
                return Err(ArgsError::UnknownOption { arg: arg.to_owned() });
            }
            i = i + 1;
        }
        proof {
            lemma_try_all(options);
        }
        if awaits_version {
            return Err(ArgsError::MissingVersion);
        }
        Ok(
            Config {
                out_path,
                uncomp_rom_path,
                elf_path,
                symbol_out,
                game_id: GameId::BanjoKazooie(version),
            },
        )
    }
}

} // verus!
