use bk_rom::game::{GameId, GameVersion};
use bk_rom::options::{ArgsError, Config};

fn args(list: &[&str]) -> Vec<String> {
    list.iter().map(|s| s.to_string()).collect()
}

#[test]
fn three_paths() {
    let config = Config::form_args(args(&["comp", "bk.elf", "bk.z64", "out.z64"])).unwrap();
    assert_eq!(config.elf_path, "bk.elf");
    assert_eq!(config.uncomp_rom_path, "bk.z64");
    assert_eq!(config.out_path, "out.z64");
    assert!(!config.symbol_out);
    assert_eq!(config.game_id, GameId::BanjoKazooie(GameVersion::USA));
}

#[test]
fn a_release_and_the_list_of_symbols() {
    let config =
        Config::form_args(args(&["comp", "-v", "pal", "-s", "a", "b", "c"])).unwrap();
    assert_eq!(config.game_id, GameId::BanjoKazooie(GameVersion::PAL));
    assert!(config.symbol_out);
    assert_eq!(config.elf_path, "a");
    let config =
        Config::form_args(args(&["comp", "--symbols", "--version", "us.v11", "a", "b", "c"]))
            .unwrap();
    assert_eq!(config.game_id, GameId::BanjoKazooie(GameVersion::USARevA));
    assert!(config.symbol_out);
}

#[test]
fn the_last_release_named_counts() {
    let config =
        Config::form_args(args(&["comp", "-v", "pal", "-v", "jp", "a", "b", "c"])).unwrap();
    assert_eq!(config.game_id, GameId::BanjoKazooie(GameVersion::JP));
    assert!(!config.symbol_out);
}

#[test]
fn the_last_three_arguments_are_paths_whatever_they_are() {
    let config = Config::form_args(args(&["comp", "a", "-s"])).unwrap();
    assert_eq!(config.elf_path, "comp");
    assert_eq!(config.uncomp_rom_path, "a");
    assert_eq!(config.out_path, "-s");
    assert!(!config.symbol_out);
}

#[test]
fn a_release_may_be_called_like_an_option() {
    assert_eq!(
        Config::form_args(args(&["comp", "-v", "-s", "a", "b", "c"])),
        Err(ArgsError::UnknownVersion { arg: "-s".to_string() })
    );
}

#[test]
fn too_few_arguments() {
    assert_eq!(Config::form_args(args(&[])), Err(ArgsError::NoOutputPath));
    assert_eq!(Config::form_args(args(&["comp"])), Err(ArgsError::NoInputRomPath));
    assert_eq!(Config::form_args(args(&["comp", "a"])), Err(ArgsError::NoInputElfPath));
}

#[test]
fn an_unknown_option() {
    assert_eq!(
        Config::form_args(args(&["comp", "-x", "a", "b", "c"])),
        Err(ArgsError::UnknownOption { arg: "-x".to_string() })
    );
    assert_eq!(
        Config::form_args(args(&["comp", "-s", "pal", "a", "b", "c"])),
        Err(ArgsError::UnknownOption { arg: "pal".to_string() })
    );
}

#[test]
fn an_unknown_release() {
    assert_eq!(
        Config::form_args(args(&["comp", "-v", "us_v10", "a", "b", "c"])),
        Err(ArgsError::UnknownVersion { arg: "us_v10".to_string() })
    );
}

#[test]
fn a_release_that_is_not_named() {
    assert_eq!(
        Config::form_args(args(&["comp", "-s", "-v", "a", "b", "c"])),
        Err(ArgsError::MissingVersion)
    );
}

#[test]
fn the_first_fault_is_told() {
    assert_eq!(
        Config::form_args(args(&["comp", "-x", "-v", "a", "b", "c"])),
        Err(ArgsError::UnknownOption { arg: "-x".to_string() })
    );
}
