//! The game list and the per-mode settings, and the target frame rates that
//! the game list gives a package.
use vstd::prelude::*;

use crate::buffer::auto_fps_list;
use crate::config_data::{
    scene_contains, Config as ConfigConfig, ConfigData, GameEntry, ModeConfig,
};
use crate::error::Error;
use crate::mode::Mode;
use crate::sort::{sort_u32, sorted};
use crate::table::Table;
use crate::text::{before_char, before_char_exec, chars_of, string_of};

verus! {

broadcast use vstd::seq_lib::group_to_multiset_ensures;

/// The frame rates a game is expected to render at: one, or a list to choose from.
#[derive(Debug, Clone, PartialEq, Eq)]
pub enum TargetFps {
    Value(u32),
    Array(Vec<u32>),
}

/// The candidate frame rates, in the order they are tried.
pub open spec fn fps_list(t: TargetFps) -> Seq<u32> {
    match t {
        TargetFps::Value(v) => seq![v],
        TargetFps::Array(a) => a@,
    }
}

impl TargetFps {
    /// The candidate frame rates as a list.
    pub fn to_list(&self) -> (r: Vec<u32>)
        ensures
            r@ == fps_list(*self),
    {
        match self {
            TargetFps::Value(v) => vec![*v],
            TargetFps::Array(a) => {
                let mut r: Vec<u32> = Vec::new();
                let mut i: usize = 0;
                while i < a.len()
                    invariant
                        i <= a@.len(),
                        r@ == a@.take(i as int),
                    decreases a@.len() - i,
                {
                    r.push(a[i]);
                    assert(a@.take(i as int).push(a@[i as int]) =~= a@.take(i + 1));
                    i += 1;
                }
                assert(a@.take(a@.len() as int) =~= a@);
                r
            },
        }
    }
}


/// The rates that the integer items of a list give, each cut to 32 bits.
pub open spec fn integers_of(a: Seq<Option<i64>>) -> Seq<u32>
    decreases a.len(),
{
    if a.len() == 0 {
        Seq::empty()
    } else {
        match a.last() {
            Some(i) => integers_of(a.drop_last()).push(i as u32),
            None => integers_of(a.drop_last()),
        }
    }
}

/// The package part of a process name: the text before the first `:`.
pub open spec fn package_of(pkg: Seq<char>) -> Seq<char> {
    before_char(pkg, ':')
}

/// What the configuration says of the target rates of `pkg`.
pub open spec fn target_fps_matches(d: ConfigData, pkg: Seq<char>, r: Option<TargetFps>) -> bool {
    let base = package_of(pkg);
    if d.game_list@.dom().contains(base) {
        match d.game_list@[base] {
            GameEntry::Integer(i) => r == Some(TargetFps::Value(i as u32)),
            GameEntry::Array(a) => match r {
                Some(TargetFps::Array(v)) => sorted(v@) && v@.to_multiset() == integers_of(
                    a@,
                ).to_multiset(),
                _ => false,
            },
            GameEntry::Text(s) => if s@ == "auto"@ {
                match r {
                    Some(TargetFps::Array(v)) => v@ == auto_fps_list(),
                    _ => false,
                }
            } else {
                r is None
            },
            GameEntry::Other => r is None,
        }
    } else if scene_contains(d.scene_game_list@, base) {
        match r {
            Some(TargetFps::Array(v)) => v@ == auto_fps_list(),
            _ => false,
        }
    } else {
        r is None
    }
}

/// The mode settings the configuration gives for mode `m`.
pub open spec fn mode_config_of(d: ConfigData, m: Mode) -> ModeConfig {
    match m {
        Mode::Powersave => d.powersave,
        Mode::Balance => d.balance,
        Mode::Performance => d.performance,
        Mode::Fast => d.fast,
    }
}

fn auto_list() -> (r: Vec<u32>)
    ensures
        r@ == auto_fps_list(),
{
    let r = vec![30u32, 45, 60, 90, 120, 144];
    assert(r@ =~= auto_fps_list());
    r
}

/// The integer items of a list, cut to 32 bits.
fn integers_exec(a: &Vec<Option<i64>>) -> (r: Vec<u32>)
    ensures
        r@ == integers_of(a@),
{
    let mut r: Vec<u32> = Vec::new();
    let mut i: usize = 0;
    while i < a.len()
        invariant
            i <= a@.len(),
            r@ == integers_of(a@.take(i as int)),
        decreases a@.len() - i,
    {
        assert(a@.take(i + 1).drop_last() =~= a@.take(i as int));
        match a[i] {
            Some(x) => r.push(x as u32),
            None => {},
        }
        i += 1;
    }
    assert(a@.take(a@.len() as int) =~= a@);
    r
}

/// The configuration currently in force.
pub struct Config {
    inner: ConfigData,
}

impl Config {
    pub closed spec fn data(&self) -> ConfigData {
        self.inner
    }

    pub open spec fn wf(&self) -> bool {
        self.data().wf()
    }

    /// Starts with `data` in force.
    pub fn from_data(data: ConfigData) -> (r: Self)
        ensures
            r.data() == data,
    {
        Config { inner: data }
    }

    /// Puts a newly read configuration in force.
    pub fn update(&mut self, data: ConfigData)
        ensures
            final(self).data() == data,
    {
        self.inner = data;
    }

    /// Whether `pkg` is a game: in the game list or among the Scene app's games.
    pub fn need_fas(&self, pkg: &str) -> (r: bool)
        requires
            self.wf(),
        ensures
            r == (self.data().game_list@.dom().contains(pkg@) || scene_contains(
                self.data().scene_game_list@,
                pkg@,
            )),
    {
        self.inner.game_list.contains_key(pkg) || self.inner.scene_contains(&chars_of(pkg))
    }

    /// The target rates the configuration gives the package of process `pkg`;
    /// `None` when it is no game, or its entry is of no usable kind.
    pub fn target_fps(&self, pkg: &str) -> (r: Option<TargetFps>)
        requires
            self.wf(),
        ensures
            target_fps_matches(self.data(), pkg@, r),
    {
        let base = string_of(&before_char_exec(&chars_of(pkg), ':'));
        match self.inner.game_list.get(base.as_str()) {
            Some(entry) => match entry {
                GameEntry::Integer(i) => Some(TargetFps::Value(*i as u32)),
                GameEntry::Array(a) => {
                    let mut v = integers_exec(a);
                    sort_u32(&mut v);
                    Some(TargetFps::Array(v))
                },
                GameEntry::Text(s) => {
                    if crate::text::chars_eq(&chars_of(s.as_str()), &chars_of("auto")) {
                        Some(TargetFps::Array(auto_list()))
                    } else {
                        None
                    }
                },
                GameEntry::Other => None,
            },
            None => {
                if self.inner.scene_contains(&chars_of(base.as_str())) {
                    Some(TargetFps::Array(auto_list()))
                } else {
                    None
                }
            },
        }
    }

    /// The settings of mode `m`.
    pub fn mode_config(&self, m: Mode) -> (r: ModeConfig)
        ensures
            r == mode_config_of(self.data(), m),
    {
        match m {
            Mode::Powersave => self.inner.powersave,
            Mode::Balance => self.inner.balance,
            Mode::Performance => self.inner.performance,
            Mode::Fast => self.inner.fast,
        }
    }

    /// The general switches.
    pub fn config(&self) -> (r: ConfigConfig)
        ensures
            r == self.data().config,
    {
        self.inner.config
    }
}

/// The sections of a configuration file, each a table of raw values.
pub struct ConfigTables<V> {
    pub config: Table<V>,
    pub game_list: Table<V>,
    pub powersave: Table<V>,
    pub balance: Table<V>,
    pub performance: Table<V>,
    pub fast: Table<V>,
}

/// The sections of a configuration file, as maps.
pub struct TablesView<V> {
    pub config: Map<Seq<char>, V>,
    pub game_list: Map<Seq<char>, V>,
    pub powersave: Map<Seq<char>, V>,
    pub balance: Map<Seq<char>, V>,
    pub performance: Map<Seq<char>, V>,
    pub fast: Map<Seq<char>, V>,
}

/// The merge of a local file into the standard one: with `keep_std`, the
/// standard settings and the local game list; otherwise each settings table
/// of the standard file overlaid with the local values of its keys, and the
/// local game list.
pub open spec fn merged_tables<V>(local: TablesView<V>, std: TablesView<V>, keep_std: bool) -> TablesView<V> {
    if keep_std {
        TablesView { game_list: local.game_list, ..std }
    } else {
        TablesView {
            config: merged_map(std.config, local.config),
            game_list: local.game_list,
            powersave: merged_map(std.powersave, local.powersave),
            balance: merged_map(std.balance, local.balance),
            performance: merged_map(std.performance, local.performance),
            fast: merged_map(std.fast, local.fast),
        }
    }
}

impl<V> ConfigTables<V> {
    /// The sections as maps.
    pub open spec fn tables_view(&self) -> TablesView<V> {
        TablesView {
            config: self.config@,
            game_list: self.game_list@,
            powersave: self.powersave@,
            balance: self.balance@,
            performance: self.performance@,
            fast: self.fast@,
        }
    }

    pub open spec fn wf(&self) -> bool {
        &&& self.config.wf()
        &&& self.game_list.wf()
        &&& self.powersave.wf()
        &&& self.balance.wf()
        &&& self.performance.wf()
        &&& self.fast.wf()
    }
}

/// The keys of `s`, each with the value `l` gives it when `l` has it, else
/// the value `s` gives it.
pub open spec fn merged_map<V>(s: Map<Seq<char>, V>, l: Map<Seq<char>, V>) -> Map<Seq<char>, V> {
    Map::new(
        |k: Seq<char>| s.dom().contains(k),
        |k: Seq<char>|
            if l.dom().contains(k) {
                l[k]
            } else {
                s[k]
            },
    )
}

impl Config {
    /// A standard table overlaid with the local values of the keys it has;
    /// keys only the local table has are dropped.
    pub fn table_merge<V>(s: Table<V>, l: Table<V>) -> (r: Table<V>)
        requires
            s.wf(),
            l.wf(),
        ensures
            r.wf(),
            r@ == merged_map(s@, l@),
    {
        let ghost s0 = s@;
        let ghost l0 = l@;
        let mut cur = s;
        let mut rest = l;
        loop
            invariant
                cur.wf(),
                rest.wf(),
                s0 == s@,
                l0 == l@,
                cur@.dom() == s0.dom(),
                forall|k: Seq<char>| #[trigger] rest@.dom().contains(k) ==> l0.dom().contains(k) && rest@[k] == l0[k],
                forall|k: Seq<char>| #[trigger] s0.dom().contains(k) ==> cur@[k] == (if l0.dom().contains(k)
                    && !rest@.dom().contains(k) {
                    l0[k]
                } else {
                    s0[k]
                }),
            decreases rest@.dom().len(),
        {
            proof {
                rest.lemma_view();
            }
            let ghost l_before = rest@;
            match rest.pop() {
                Some((k, v)) => {
                    proof {
                        rest.lemma_view();
                        assert(l_before.dom().contains(k@));
                        assert(l_before.dom() =~= rest@.dom().insert(k@));
                        assert forall|k2: Seq<char>| #[trigger] rest@.dom().contains(k2) implies l0.dom().contains(
                            k2,
                        ) && rest@[k2] == l0[k2] by {
                            assert(k2 != k@);
                            assert(l_before.dom().contains(k2));
                            assert(l_before[k2] == rest@[k2]);
                        }
                    }
                    if cur.contains_key(k.as_str()) {
                        cur.insert(k, v);
                    }
                },
                None => {
                    proof {
                        rest.lemma_view();
                        rest@.dom().lemma_len0_is_empty();
                        assert forall|k: Seq<char>| #[trigger] s0.dom().contains(k) implies cur@[k]
                            == merged_map(s0, l0)[k] by {
                            assert(!rest@.dom().contains(k));
                        }
                    }
                    assert(cur@ =~= merged_map(s0, l0));
                    return cur;
                },
            }
        }
    }

    /// Merges a local configuration into the standard one. With `keep_std`
    /// set in the local file, the standard settings are kept whole and only
    /// the local game list is taken; otherwise each settings table of the
    /// standard file is overlaid with the local values of its keys. The game
    /// list is always the local one. `local_keep_std` is the local file's
    /// `keep_std` switch if it is a boolean; without it the merge fails with
    /// `Error::ParseConfig`.
    pub fn merge_tables<V>(
        local: ConfigTables<V>,
        std: ConfigTables<V>,
        local_keep_std: Option<bool>,
    ) -> (r: Result<ConfigTables<V>, Error>)
        requires
            local.wf(),
            std.wf(),
        ensures
            local_keep_std is None <==> r is Err,
            match r {
                Err(e) => e == Error::ParseConfig,
                Ok(m) => {
                    &&& m.wf()
                    &&& m.tables_view() == merged_tables(
                        local.tables_view(),
                        std.tables_view(),
                        local_keep_std.unwrap(),
                    )
                    &&& m.game_list@ == local.game_list@
                    &&& local_keep_std == Some(true) ==> {
                        &&& m.config@ == std.config@
                        &&& m.powersave@ == std.powersave@
                        &&& m.balance@ == std.balance@
                        &&& m.performance@ == std.performance@
                        &&& m.fast@ == std.fast@
                    }
                    &&& local_keep_std == Some(false) ==> {
                        &&& m.config@ == merged_map(std.config@, local.config@)
                        &&& m.powersave@ == merged_map(std.powersave@, local.powersave@)
                        &&& m.balance@ == merged_map(std.balance@, local.balance@)
                        &&& m.performance@ == merged_map(std.performance@, local.performance@)
                        &&& m.fast@ == merged_map(std.fast@, local.fast@)
                    }
                },
            },
    {
        let keep_std = match local_keep_std {
            Some(b) => b,
            None => return Err(Error::ParseConfig),
        };
        if keep_std {
            return Ok(
                ConfigTables {
                    config: std.config,
                    game_list: local.game_list,
                    powersave: std.powersave,
                    balance: std.balance,
                    performance: std.performance,
                    fast: std.fast,
                },
            );
        }
        let config = Self::table_merge(std.config, local.config);
        let powersave = Self::table_merge(std.powersave, local.powersave);
        let balance = Self::table_merge(std.balance, local.balance);
        let performance = Self::table_merge(std.performance, local.performance);
        let fast = Self::table_merge(std.fast, local.fast);
        Ok(ConfigTables { config, game_list: local.game_list, powersave, balance, performance, fast })
    }
}

/// How many times in a row reading the user's configuration may fail before
/// the standard profile is used.
pub const MAX_RETRY_COUNT: u8 = 10;

/// After one more failed read of the user's configuration: the failures so
/// far, and whether to give up and use the standard profile.
pub fn after_failed_read(failures: u8) -> (r: (u8, bool))
    requires
        failures < MAX_RETRY_COUNT,
    ensures
        r.0 == failures + 1,
        r.1 == (failures + 1 >= MAX_RETRY_COUNT),
{
    let n = failures + 1;
    (n, n >= MAX_RETRY_COUNT)
}

} // verus!
