//! The configuration as read from the games file, in the library's own types.
use vstd::prelude::*;

use crate::table::Table;
use crate::text::{chars_eq, chars_of};

verus! {

/// The general switches of the configuration.
#[derive(Debug, Clone, Copy, PartialEq, Eq, Structural)]
pub struct Config {
    /// Keep the standard profile's settings when merging in a local file.
    pub keep_std: bool,
    /// Also treat the games of the Scene app's list as games.
    pub scene_game_list: bool,
}

impl Config {
    /// Both switches default to on.
    pub fn default_value_keep_std() -> (r: bool)
        ensures
            r,
    {
        true
    }

    pub fn default_value_scene_game_list() -> (r: bool)
        ensures
            r,
    {
        true
    }
}

/// The core temperature above which the target frame rate is lowered.
#[derive(Debug, Clone, Copy, PartialEq, Eq, Structural)]
pub enum TemperatureThreshold {
    Disabled,
    /// In the unit of the thermal zones (millidegrees Celsius).
    Temp(u64),
}

/// The settings of one mode that the library acts on.
#[derive(Debug, Clone, Copy, PartialEq, Eq, Structural)]
pub struct ModeConfig {
    pub core_temp_thresh: TemperatureThreshold,
}

/// A value of the game list: a rate, a list whose integer items are rates,
/// a text (of which `"auto"` means the default rates), or anything else.
#[derive(Debug)]
pub enum GameEntry {
    Integer(i64),
    /// Each item: its integer value, or `None` when it is not an integer.
    Array(Vec<Option<i64>>),
    Text(String),
    Other,
}

/// The whole configuration.
pub struct ConfigData {
    pub config: Config,
    pub game_list: Table<GameEntry>,
    /// Packages that the Scene app lists as games.
    pub scene_game_list: Vec<String>,
    pub powersave: ModeConfig,
    pub balance: ModeConfig,
    pub performance: ModeConfig,
    pub fast: ModeConfig,
}

/// `k` is among the Scene app's games.
pub open spec fn scene_contains(list: Seq<String>, k: Seq<char>) -> bool {
    exists|i: int| 0 <= i < list.len() && #[trigger] list[i]@ == k
}

impl ConfigData {
    pub open spec fn wf(&self) -> bool {
        self.game_list.wf()
    }

    /// Whether `pkg` is among the Scene app's games.
    pub fn scene_contains(&self, pkg: &[char]) -> (r: bool)
        ensures
            r == scene_contains(self.scene_game_list@, pkg@),
    {
        let mut i: usize = 0;
        while i < self.scene_game_list.len()
            invariant
                i <= self.scene_game_list@.len(),
                forall|k: int| 0 <= k < i ==> self.scene_game_list@[k]@ != pkg@,
            decreases self.scene_game_list@.len() - i,
        {
            if chars_eq(&chars_of(self.scene_game_list[i].as_str()), pkg) {
                return true;
            }
            i += 1;
        }
        false
    }
}

/// One entry of the Scene app's list: a package and whether it is a game.
#[derive(Debug, Clone)]
pub struct SceneApp {
    pub pkg: String,
    pub is_game: bool,
}

/// The Scene app's list of packages.
#[derive(Debug)]
pub struct SceneAppList {
    pub apps: Vec<SceneApp>,
}

/// The packages of the games in a Scene list, in order.
pub open spec fn scene_games(apps: Seq<SceneApp>) -> Seq<Seq<char>>
    decreases apps.len(),
{
    if apps.len() == 0 {
        Seq::empty()
    } else if apps.last().is_game {
        scene_games(apps.drop_last()).push(apps.last().pkg@)
    } else {
        scene_games(apps.drop_last())
    }
}

impl SceneAppList {
    /// The packages marked as games.
    pub fn games(&self) -> (r: Vec<String>)
        ensures
            r@.map_values(|s: String| s@) == scene_games(self.apps@),
    {
        let mut r: Vec<String> = Vec::new();
        let mut i: usize = 0;
        while i < self.apps.len()
            invariant
                i <= self.apps@.len(),
                r@.map_values(|s: String| s@) == scene_games(self.apps@.take(i as int)),
            decreases self.apps@.len() - i,
        {
            assert(self.apps@.take(i + 1).drop_last() =~= self.apps@.take(i as int));
            let ghost before = r@;
            if self.apps[i].is_game {
                r.push(self.apps[i].pkg.clone());
                assert(r@.map_values(|s: String| s@) =~= before.map_values(|s: String| s@).push(
                    self.apps@[i as int].pkg@,
                ));
            }
            i += 1;
        }
        assert(self.apps@.take(self.apps@.len() as int) =~= self.apps@);
        r
    }
}

} // verus!
