//! Turning off the vendors' own frame pacing while the scheduler works, and
//! putting it back afterwards.
use vstd::prelude::*;

use crate::table::{pairs_view, Table};
use crate::text::{chars_of, push_char};

verus! {

/// The switches and the values they are locked at while the scheduler works.
pub open spec fn lock_targets_spec() -> Seq<(Seq<char>, Seq<char>)> {
    seq![
        ("/sys/module/mtk_fpsgo/parameters/perfmgr_enable"@, "0"@),
        ("/sys/module/perfmgr/parameters/perfmgr_enable"@, "0"@),
        ("/sys/module/perfmgr_policy/parameters/perfmgr_enable"@, "0"@),
        ("/sys/module/perfmgr_mtk/parameters/perfmgr_enable"@, "0"@),
        ("/sys/module/migt/parameters/glk_fbreak_enable"@, "0"@),
        ("/sys/module/migt/parameters/glk_disable"@, "1"@),
        ("/proc/game_opt/disable_cpufreq_limit"@, "1"@),
    ]
}

/// The values the switches had before they were locked.
pub struct Cleaner {
    map: Table<String>,
}

impl Cleaner {
    pub closed spec fn wf(&self) -> bool {
        self.map.wf()
    }

    /// Switch path to the value it had before locking.
    pub closed spec fn saved(&self) -> Map<Seq<char>, Seq<char>> {
        Map::new(|k: Seq<char>| self.map@.dom().contains(k), |k: Seq<char>| self.map@[k]@)
    }

    /// Nothing saved.
    pub fn new() -> (r: Self)
        ensures
            r.wf(),
            r.saved() == Map::<Seq<char>, Seq<char>>::empty(),
    {
        let r = Cleaner { map: Table::new() };
        assert(r.saved() =~= Map::<Seq<char>, Seq<char>>::empty());
        r
    }

    /// The switches to lock, each with the value to lock it at, in order.
    pub fn lock_targets() -> (r: Vec<(String, String)>)
        ensures
            pairs_view(r@) == lock_targets_spec(),
    {
        let r = vec![
            ("/sys/module/mtk_fpsgo/parameters/perfmgr_enable".to_owned(), "0".to_owned()),
            ("/sys/module/perfmgr/parameters/perfmgr_enable".to_owned(), "0".to_owned()),
            ("/sys/module/perfmgr_policy/parameters/perfmgr_enable".to_owned(), "0".to_owned()),
            ("/sys/module/perfmgr_mtk/parameters/perfmgr_enable".to_owned(), "0".to_owned()),
            ("/sys/module/migt/parameters/glk_fbreak_enable".to_owned(), "0".to_owned()),
            ("/sys/module/migt/parameters/glk_disable".to_owned(), "1".to_owned()),
            ("/proc/game_opt/disable_cpufreq_limit".to_owned(), "1".to_owned()),
        ];
        assert(pairs_view(r@) =~= lock_targets_spec());
        r
    }

    /// Saves, for each switch in the order of `lock_targets`, the value read
    /// from it before locking (`None` when it could not be read, which saves
    /// nothing); returns the switches to lock with their values.
    pub fn cleanup(&mut self, last_values: Vec<Option<String>>) -> (r: Vec<(String, String)>)
        requires
            old(self).wf(),
            last_values@.len() == 7,
        ensures
            final(self).wf(),
            pairs_view(r@) == lock_targets_spec(),
            forall|k: Seq<char>| #[trigger] final(self).saved().dom().contains(k) <==> (old(self).saved().dom().contains(k)
                || exists|i: int| 0 <= i < 7 && lock_targets_spec()[i].0 == k && last_values@[i] is Some),
            forall|i: int| 0 <= i < 7 && #[trigger] last_values@[i] is Some ==> final(self).saved()[lock_targets_spec()[i].0]
                == last_values@[i].unwrap()@,
            forall|k: Seq<char>| #[trigger] old(self).saved().dom().contains(k) && !(exists|i: int| 0 <= i < 7
                && lock_targets_spec()[i].0 == k && last_values@[i] is Some) ==> final(self).saved()[k] == old(self).saved()[k],
    {
        let targets = Self::lock_targets();
        let ghost t = lock_targets_spec();
        assert(targets@.len() == pairs_view(targets@).len());
        proof {
            reveal_strlit("/sys/module/mtk_fpsgo/parameters/perfmgr_enable");
            reveal_strlit("/sys/module/perfmgr/parameters/perfmgr_enable");
            reveal_strlit("/sys/module/perfmgr_policy/parameters/perfmgr_enable");
            reveal_strlit("/sys/module/perfmgr_mtk/parameters/perfmgr_enable");
            reveal_strlit("/sys/module/migt/parameters/glk_fbreak_enable");
            reveal_strlit("/sys/module/migt/parameters/glk_disable");
            reveal_strlit("/proc/game_opt/disable_cpufreq_limit");
            assert(t[0].0.len() == 47);
            assert(t[1].0.len() == 45);
            assert(t[2].0.len() == 52);
            assert(t[3].0.len() == 49);
            assert(t[4].0.len() == 45);
            assert(t[5].0.len() == 39);
            assert(t[6].0.len() == 36);
            assert(t[1].0[12] != t[4].0[12]);
        }
        let mut lv = last_values;
        let mut i: usize = 7;
        assert(lv@ =~= last_values@.take(7));
        while i > 0
            invariant
                i <= 7,
                last_values@.len() == 7,
                lv@.len() == i,
                lv@ == last_values@.take(i as int),
                t == lock_targets_spec(),
                pairs_view(targets@) == t,
                targets@.len() == 7,
                forall|a: int, b: int| 0 <= a < b < 7 ==> t[a].0 != t[b].0,
                self.wf(),
                forall|k: Seq<char>| #[trigger] self.saved().dom().contains(k) <==> (old(self).saved().dom().contains(k)
                    || exists|j: int| i <= j < 7 && t[j].0 == k && last_values@[j] is Some),
                forall|j: int| i <= j < 7 && #[trigger] last_values@[j] is Some ==> self.saved()[t[j].0]
                    == last_values@[j].unwrap()@,
                forall|k: Seq<char>| #[trigger] old(self).saved().dom().contains(k) && !(exists|j: int| i <= j < 7
                    && t[j].0 == k && last_values@[j] is Some) ==> self.saved()[k] == old(self).saved()[k],
            decreases i,
        {
            i -= 1;
            let ghost lv_before = lv@;
            assert(lv_before == last_values@.take(i + 1));
            assert(lv_before[i as int] == last_values@[i as int]);
            assert(lv_before.last() == last_values@[i as int]);
            let v = lv.pop().unwrap();
            assert(v == last_values@[i as int]);
            assert(lv@ =~= last_values@.take(i as int));
            match v {
                Some(val) => {
                    let path = targets[i].0.clone();
                    assert(pairs_view(targets@)[i as int] == t[i as int]);
                    assert(path@ == t[i as int].0);
                    let ghost before = self.saved();
                    self.map.insert(path, val);
                    assert(self.saved() =~= before.insert(t[i as int].0, last_values@[i as int].unwrap()@));
                },
                None => {},
            }
        }
        targets
    }

    /// The switches to restore, each with its saved value.
    pub fn undo_cleanup(&self) -> (r: Vec<(String, String)>)
        requires
            self.wf(),
        ensures
            forall|k: Seq<char>, v: Seq<char>| pairs_view(r@).contains((k, v)) <==> self.saved().dom().contains(k)
                && self.saved()[k] == v,
            r@.len() == self.saved().dom().len(),
    {
        let r = self.map.to_pairs();
        proof {
            self.map.lemma_view();
            assert(self.saved().dom() =~= self.map@.dom());
        }
        r
    }
}

/// The file a switch's locked value is kept in and bind-mounted from:
/// `/cache/mount_mask_<value>`.
pub fn mount_mask_path(value: &str) -> (r: String)
    ensures
        r@ == "/cache/mount_mask_"@ + value@,
{
    let mut r = "/cache/mount_mask_".to_owned();
    let v = chars_of(value);
    let mut i: usize = 0;
    while i < v.len()
        invariant
            i <= v@.len(),
            v@ == value@,
            r@ == "/cache/mount_mask_"@ + v@.take(i as int),
        decreases v@.len() - i,
    {
        push_char(&mut r, v[i]);
        assert("/cache/mount_mask_"@ + v@.take(i as int) + seq![v@[i as int]] =~= "/cache/mount_mask_"@ + v@.take(i + 1));
        i += 1;
    }
    assert(v@.take(v@.len() as int) =~= v@);
    r
}

} // verus!
