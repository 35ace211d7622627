//! Power modes, the node directory through which the mode is chosen, and the
//! jank thresholds that each mode implies.
use vstd::prelude::*;

use crate::error::Error;
use crate::table::Table;
use crate::text::{chars_eq, chars_of, string_of, trim, trim_exec};

verus! {

/// The four power modes.
#[derive(Debug, Clone, Copy, PartialEq, Eq, Structural)]
pub enum Mode {
    Powersave,
    Balance,
    Performance,
    Fast,
}

/// The name of a mode, as the `mode` node holds it.
pub open spec fn mode_name(m: Mode) -> Seq<char> {
    match m {
        Mode::Powersave => "powersave"@,
        Mode::Balance => "balance"@,
        Mode::Performance => "performance"@,
        Mode::Fast => "fast"@,
    }
}

/// The mode a text names, if it names one.
pub open spec fn parse_mode(s: Seq<char>) -> Option<Mode> {
    if s == "powersave"@ {
        Some(Mode::Powersave)
    } else if s == "balance"@ {
        Some(Mode::Balance)
    } else if s == "performance"@ {
        Some(Mode::Performance)
    } else if s == "fast"@ {
        Some(Mode::Fast)
    } else {
        None
    }
}

impl Mode {
    /// Reads a mode from its name; any other text is `Error::ParseNode`.
    pub fn from_str(s: &str) -> (r: Result<Mode, Error>)
        ensures
            match parse_mode(s@) {
                Some(m) => r == Ok::<Mode, Error>(m),
                None => r == Err::<Mode, Error>(Error::ParseNode),
            },
    {
        let v = chars_of(s);
        if chars_eq(&v, &chars_of("powersave")) {
            Ok(Mode::Powersave)
        } else if chars_eq(&v, &chars_of("balance")) {
            Ok(Mode::Balance)
        } else if chars_eq(&v, &chars_of("performance")) {
            Ok(Mode::Performance)
        } else if chars_eq(&v, &chars_of("fast")) {
            Ok(Mode::Fast)
        } else {
            Err(Error::ParseNode)
        }
    }

    /// The mode's name.
    pub fn to_string(&self) -> (r: String)
        ensures
            r@ == mode_name(*self),
    {
        let s = match self {
            Mode::Powersave => "powersave",
            Mode::Balance => "balance",
            Mode::Performance => "performance",
            Mode::Fast => "fast",
        };
        string_of(&chars_of(s))
    }
}

/// Reading a mode's name gives the mode back.
pub proof fn lemma_mode_name_roundtrip(m: Mode)
    ensures
        parse_mode(mode_name(m)) == Some(m),
{
    reveal_strlit("powersave");
    reveal_strlit("balance");
    reveal_strlit("performance");
    reveal_strlit("fast");
    assert("powersave"@.len() == 9);
    assert("balance"@.len() == 7);
    assert("performance"@.len() == 11);
    assert("fast"@.len() == 4);
}

/// Two modes with the same name are the same mode.
pub proof fn lemma_mode_name_injective(a: Mode, b: Mode)
    ensures
        mode_name(a) == mode_name(b) ==> a == b,
{
    lemma_mode_name_roundtrip(a);
    lemma_mode_name_roundtrip(b);
}

/// Nanoseconds in a second.
pub const NANOS_PER_SEC: u64 = 1_000_000_000;

/// Nanoseconds in a millisecond.
pub const NANOS_PER_MILLI: u64 = 1_000_000;

/// How long a node's cached value is trusted, in nanoseconds.
pub const NODE_REFRESH_NS: u64 = 1_000_000_000;

/// The node directory as last read: node name to node text.
pub struct Node {
    map: Table<String>,
    timer: u64,
}

impl Node {
    pub closed spec fn wf(&self) -> bool {
        self.map.wf()
    }

    /// Node name to node text, as the cache holds them.
    pub closed spec fn nodes(&self) -> Map<Seq<char>, Seq<char>> {
        Map::new(|k: Seq<char>| self.map@.dom().contains(k), |k: Seq<char>| self.map@[k]@)
    }

    /// When the cache was created, in nanoseconds of the monotonic clock.
    pub closed spec fn created_at(&self) -> u64 {
        self.timer
    }

    /// An empty cache, created at `now`.
    pub fn init(now: u64) -> (r: Node)
        ensures
            r.wf(),
            r.nodes() == Map::<Seq<char>, Seq<char>>::empty(),
            r.created_at() == now,
    {
        let r = Node { map: Table::new(), timer: now };
        assert(r.nodes() =~= Map::<Seq<char>, Seq<char>>::empty());
        r
    }

    /// Whether the cache is older than the refresh time at `now`, so that the
    /// node directory is to be read again before a lookup.
    pub fn needs_refresh(&self, now: u64) -> (r: bool)
        ensures
            r == (now > self.created_at() && now - self.created_at() > NODE_REFRESH_NS),
    {
        now > self.timer && now - self.timer > NODE_REFRESH_NS
    }

    /// Records the text read from node `id`.
    pub fn insert(&mut self, id: String, value: String)
        requires
            old(self).wf(),
        ensures
            final(self).wf(),
            final(self).nodes() == old(self).nodes().insert(id@, value@),
            final(self).created_at() == old(self).created_at(),
    {
        let ghost k = id@;
        let ghost v = value@;
        self.map.insert(id, value);
        assert(self.nodes() =~= old(self).nodes().insert(k, v));
    }

    /// The text of node `id`; `Error::NodeNotFound` when there is no such node.
    pub fn get_node(&self, id: &str) -> (r: Result<String, Error>)
        requires
            self.wf(),
        ensures
            match r {
                Ok(v) => self.nodes().dom().contains(id@) && v@ == self.nodes()[id@],
                Err(e) => !self.nodes().dom().contains(id@) && e == Error::NodeNotFound,
            },
    {
        match self.map.get(id) {
            Some(v) => Ok(v.clone()),
            None => Err(Error::NodeNotFound),
        }
    }

    /// The mode that the `mode` node names, read after trimming whitespace.
    pub fn get_mode(&self) -> (r: Result<Mode, Error>)
        requires
            self.wf(),
        ensures
            !self.nodes().dom().contains("mode"@) ==> r == Err::<Mode, Error>(Error::NodeNotFound),
            self.nodes().dom().contains("mode"@) ==> match parse_mode(trim(self.nodes()["mode"@])) {
                Some(m) => r == Ok::<Mode, Error>(m),
                None => r == Err::<Mode, Error>(Error::ParseNode),
            },
    {
        let mode = match self.get_node("mode") {
            Ok(v) => v,
            Err(_) => return Err(Error::NodeNotFound),
        };
        let t = trim_exec(&chars_of(mode.as_str()));
        let s = string_of(&t);
        Mode::from_str(s.as_str())
    }
}

/// How long a frame may take before it counts as a jank, and as a big jank.
#[derive(Debug, Clone, Copy, PartialEq, Eq, Structural)]
pub struct PolicyConfig {
    /// Nanoseconds.
    pub jank_scale: u64,
    /// Nanoseconds.
    pub big_jank_scale: u64,
}

impl PolicyConfig {
    /// 58 ms and 83 ms in the saving modes; 41 ms and 58 ms in the fast ones.
    pub fn new(mode: Mode) -> (r: PolicyConfig)
        ensures
            (mode == Mode::Powersave || mode == Mode::Balance) ==> r == (PolicyConfig {
                jank_scale: 58_000_000,
                big_jank_scale: 83_000_000,
            }),
            (mode == Mode::Performance || mode == Mode::Fast) ==> r == (PolicyConfig {
                jank_scale: 41_000_000,
                big_jank_scale: 58_000_000,
            }),
    {
        match mode {
            Mode::Powersave | Mode::Balance => PolicyConfig {
                jank_scale: 58 * NANOS_PER_MILLI,
                big_jank_scale: 83 * NANOS_PER_MILLI,
            },
            Mode::Performance | Mode::Fast => PolicyConfig {
                jank_scale: 41 * NANOS_PER_MILLI,
                big_jank_scale: 58 * NANOS_PER_MILLI,
            },
        }
    }
}

} // verus!
