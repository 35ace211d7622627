use fas_rs::config::{Config, ConfigTables, TargetFps};
use fas_rs::config_data::{
    Config as Flags, ConfigData, GameEntry, ModeConfig, SceneApp, SceneAppList, TemperatureThreshold,
};
use fas_rs::error::Error;
use fas_rs::mode::Mode;
use fas_rs::sort::sort_u32;
use fas_rs::table::Table;

fn mode(t: u64) -> ModeConfig {
    ModeConfig { core_temp_thresh: TemperatureThreshold::Temp(t) }
}

fn data() -> ConfigData {
    let mut game_list = Table::new();
    game_list.insert("com.a".to_string(), GameEntry::Array(vec![Some(120), Some(30), None, Some(60)]));
    game_list.insert("com.b".to_string(), GameEntry::Integer(90));
    game_list.insert("com.c".to_string(), GameEntry::Text("auto".to_string()));
    game_list.insert("com.d".to_string(), GameEntry::Text("fast".to_string()));
    game_list.insert("com.e".to_string(), GameEntry::Other);
    game_list.insert("com.f".to_string(), GameEntry::Integer(4_294_967_357));
    ConfigData {
        config: Flags { keep_std: true, scene_game_list: true },
        game_list,
        scene_game_list: vec!["com.scene".to_string()],
        powersave: mode(1),
        balance: mode(2),
        performance: mode(3),
        fast: ModeConfig { core_temp_thresh: TemperatureThreshold::Disabled },
    }
}

#[test]
fn target_fps_from_game_list() {
    let c = Config::from_data(data());
    assert_eq!(c.target_fps("com.a"), Some(TargetFps::Array(vec![30, 60, 120])));
    assert_eq!(c.target_fps("com.a:remote"), Some(TargetFps::Array(vec![30, 60, 120])));
    assert_eq!(c.target_fps("com.b"), Some(TargetFps::Value(90)));
    assert_eq!(c.target_fps("com.c"), Some(TargetFps::Array(vec![30, 45, 60, 90, 120, 144])));
    assert_eq!(c.target_fps("com.d"), None);
    assert_eq!(c.target_fps("com.e"), None);
    // Values are cut to 32 bits, as an `as u32` cast does.
    assert_eq!(c.target_fps("com.f"), Some(TargetFps::Value(61)));
    assert_eq!(c.target_fps("com.scene"), Some(TargetFps::Array(vec![30, 45, 60, 90, 120, 144])));
    assert_eq!(c.target_fps("com.none"), None);
}

#[test]
fn need_fas_checks_both_lists() {
    let c = Config::from_data(data());
    assert!(c.need_fas("com.a"));
    assert!(c.need_fas("com.scene"));
    assert!(!c.need_fas("com.none"));
    assert!(!c.need_fas("com.a:remote"));
}

#[test]
fn mode_config_per_mode() {
    let c = Config::from_data(data());
    assert_eq!(c.mode_config(Mode::Powersave), mode(1));
    assert_eq!(c.mode_config(Mode::Performance), mode(3));
    assert_eq!(c.mode_config(Mode::Fast).core_temp_thresh, TemperatureThreshold::Disabled);
    assert!(c.config().keep_std);
}

#[test]
fn scene_list_keeps_games() {
    let list = SceneAppList {
        apps: vec![
            SceneApp { pkg: "g1".to_string(), is_game: true },
            SceneApp { pkg: "app".to_string(), is_game: false },
            SceneApp { pkg: "g2".to_string(), is_game: true },
        ],
    };
    assert_eq!(list.games(), vec!["g1".to_string(), "g2".to_string()]);
}

#[test]
fn sorting() {
    let mut v = vec![5u32, 1, 4, 1, 3];
    sort_u32(&mut v);
    assert_eq!(v, vec![1, 1, 3, 4, 5]);
}

fn table(items: &[(&str, i32)]) -> Table<i32> {
    let mut t = Table::new();
    for (k, v) in items {
        t.insert(k.to_string(), *v);
    }
    t
}

fn tables(config: &[(&str, i32)], games: &[(&str, i32)], modes: &[(&str, i32)]) -> ConfigTables<i32> {
    ConfigTables {
        config: table(config),
        game_list: table(games),
        powersave: table(modes),
        balance: table(modes),
        performance: table(modes),
        fast: table(modes),
    }
}

#[test]
fn table_merge_keeps_standard_keys_with_local_values() {
    let s = table(&[("a", 1), ("b", 2)]);
    let l = table(&[("b", 20), ("c", 30)]);
    let m = Config::table_merge(s, l);
    assert_eq!(m.len(), 2);
    assert_eq!(m.get("a"), Some(&1));
    assert_eq!(m.get("b"), Some(&20));
    assert_eq!(m.get("c"), None);
}

#[test]
fn merge_with_keep_std_takes_standard_settings() {
    let local = tables(&[("keep_std", 1)], &[("game", 7)], &[("margin", 9)]);
    let std = tables(&[("keep_std", 0), ("x", 5)], &[("other", 1)], &[("margin", 2), ("t", 3)]);
    let m = Config::merge_tables(local, std, Some(true)).ok().unwrap();
    assert_eq!(m.game_list.get("game"), Some(&7));
    assert_eq!(m.game_list.get("other"), None);
    assert_eq!(m.powersave.get("margin"), Some(&2));
    assert_eq!(m.config.get("x"), Some(&5));
}

#[test]
fn merge_without_keep_std_overlays_local_values() {
    let local = tables(&[("keep_std", 0)], &[("game", 7)], &[("margin", 9), ("extra", 1)]);
    let std = tables(&[("keep_std", 1), ("x", 5)], &[("other", 1)], &[("margin", 2), ("t", 3)]);
    let m = Config::merge_tables(local, std, Some(false)).ok().unwrap();
    assert_eq!(m.powersave.get("margin"), Some(&9));
    assert_eq!(m.powersave.get("t"), Some(&3));
    assert_eq!(m.powersave.get("extra"), None);
    assert_eq!(m.config.get("keep_std"), Some(&0));
    assert_eq!(m.game_list.get("game"), Some(&7));
}

#[test]
fn merge_without_keep_std_switch_fails() {
    let local = tables(&[], &[], &[]);
    let std = tables(&[], &[], &[]);
    assert!(matches!(Config::merge_tables(local, std, None), Err(Error::ParseConfig)));
}

#[test]
fn table_merge_twice_is_merge_once() {
    let once = Config::table_merge(table(&[("a", 1), ("b", 2)]), table(&[("b", 20), ("c", 30)]));
    let twice = Config::table_merge(
        Config::table_merge(table(&[("a", 1), ("b", 2)]), table(&[("b", 20), ("c", 30)])),
        table(&[("b", 20), ("c", 30)]),
    );
    assert_eq!(twice.len(), once.len());
    assert_eq!(twice.get("a"), once.get("a"));
    assert_eq!(twice.get("b"), once.get("b"));
    assert_eq!(twice.get("c"), None);
    let same = Config::table_merge(table(&[("a", 1), ("b", 2)]), table(&[("a", 1), ("b", 2)]));
    assert_eq!(same.len(), 2);
    assert_eq!(same.get("a"), Some(&1));
    assert_eq!(same.get("b"), Some(&2));
}

#[test]
fn merging_a_merged_profile_again_changes_nothing() {
    let std = || tables(&[("keep_std", 1), ("x", 5)], &[("other", 1)], &[("margin", 2), ("t", 3)]);
    let local = tables(&[("keep_std", 0)], &[("game", 7)], &[("margin", 9), ("extra", 1)]);
    let m = Config::merge_tables(local, std(), Some(false)).ok().unwrap();
    // The merged profile carries the local switch (0 = false).
    assert_eq!(m.config.get("keep_std"), Some(&0));
    let m2 = Config::merge_tables(m, std(), Some(false)).ok().unwrap();
    assert_eq!(m2.config.len(), 2);
    assert_eq!(m2.config.get("keep_std"), Some(&0));
    assert_eq!(m2.config.get("x"), Some(&5));
    assert_eq!(m2.game_list.len(), 1);
    assert_eq!(m2.game_list.get("game"), Some(&7));
    assert_eq!(m2.powersave.len(), 2);
    assert_eq!(m2.powersave.get("margin"), Some(&9));
    assert_eq!(m2.powersave.get("t"), Some(&3));
}
