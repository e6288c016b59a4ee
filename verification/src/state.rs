//! The state that survives a restart: the wallpaper shown on every monitor
//! and the wallpapers chosen for single monitors.

use vstd::prelude::*;
use crate::config::{blur_in_range, is_valid_blur};

verus! {

/// A wallpaper chosen for one monitor.
#[derive(Debug)]
pub struct MonitorOverride {
    pub monitor: String,
    pub image: String,
    pub mode: String,
    pub blur: u32,
}

/// The saved wallpaper state.
#[derive(Debug)]
pub struct WallmanState {
    pub default_image: Option<String>,
    pub default_mode: Option<String>,
    pub default_blur: Option<u32>,
    pub monitor_overrides: Vec<MonitorOverride>,
}

impl Default for WallmanState {
    fn default() -> (s: Self)
        ensures
            s.default_image is None,
            s.default_mode is None,
            s.default_blur is None,
            s.monitor_overrides@.len() == 0,
    {
        WallmanState {
            default_image: None,
            default_mode: None,
            default_blur: None,
            monitor_overrides: Vec::new(),
        }
    }
}

/// Whether an override is for a monitor other than `monitor`.
pub open spec fn for_other_monitor(monitor: Seq<char>) -> spec_fn(MonitorOverride) -> bool {
    |o: MonitorOverride| o.monitor@ != monitor
}

/// Whether no two overrides name the same monitor.
pub open spec fn monitors_distinct(overrides: Seq<MonitorOverride>) -> bool {
    forall|i: int, j: int|
        0 <= i < overrides.len() && 0 <= j < overrides.len() && i != j ==> overrides[i].monitor@
            != overrides[j].monitor@
}

/// The overrides for monitors other than `monitor`, in their order.
fn without_monitor(overrides: Vec<MonitorOverride>, monitor: &String) -> (r: Vec<MonitorOverride>)
    ensures
        r@ == overrides@.filter(for_other_monitor(monitor@)),
{
    let ghost pred = for_other_monitor(monitor@);
    let ghost all = overrides@;
    let mut kept: Vec<MonitorOverride> = Vec::new();
    let mut rest = overrides;
    let total = rest.len();
    assert(all.len() == total);
    let mut i: usize = 0;
    while rest.len() > 0
        invariant
            i + rest@.len() == all.len(),
            all.len() <= usize::MAX,
            rest@ == all.subrange(i as int, all.len() as int),
            kept@ == all.take(i as int).filter(pred),
            pred == for_other_monitor(monitor@),
        decreases rest@.len(),
    {
        let o = rest.remove(0);
        proof {
            assert(o == all[i as int]);
            assert(rest@ =~= all.subrange(i + 1, all.len() as int));
            reveal_with_fuel(Seq::filter, 1);
            assert(all.take(i + 1).drop_last() =~= all.take(i as int));
            assert(all.take(i + 1).last() == all[i as int]);
        }
        if o.monitor != *monitor {
            kept.push(o);
        }
        i = i + 1;
    }
    assert(all.take(all.len() as int) =~= all);
    kept
}

impl WallmanState {
    /// Records a wallpaper: for every monitor when `monitor` is empty, which
    /// sets the default image, mode and blur; else for that monitor alone,
    /// which replaces any override it had by one at the end of the list.
    /// A blur radius outside 1 to 30 is refused: nothing is recorded and
    /// `false` is returned.
    pub fn record_wallpaper(&mut self, monitor: String, image: String, mode: String, blur: u32) -> (recorded: bool)
        ensures
            recorded == blur_in_range(blur),
            !recorded ==> *final(self) == *old(self),
            recorded && monitor@.len() == 0 ==> final(self).default_image == Some(image),
            recorded && monitor@.len() == 0 ==> final(self).default_mode == Some(mode),
            recorded && monitor@.len() == 0 ==> final(self).default_blur == Some(blur),
            recorded && monitor@.len() == 0 ==> final(self).monitor_overrides@ == old(self).monitor_overrides@,
            recorded && monitor@.len() != 0 ==> final(self).default_image == old(self).default_image,
            recorded && monitor@.len() != 0 ==> final(self).default_mode == old(self).default_mode,
            recorded && monitor@.len() != 0 ==> final(self).default_blur == old(self).default_blur,
            recorded && monitor@.len() != 0 ==> final(self).monitor_overrides@ == old(self).monitor_overrides@.filter(
                for_other_monitor(monitor@),
            ).push((MonitorOverride { monitor, image, mode, blur })),
    {
        if !is_valid_blur(blur) {
            return false;
        }
        if monitor.as_str().is_empty() {
            self.default_image = Some(image);
            self.default_mode = Some(mode);
            self.default_blur = Some(blur);
        } else {
            let mut overrides = Vec::new();
            std::mem::swap(&mut overrides, &mut self.monitor_overrides);
            let mut kept = without_monitor(overrides, &monitor);
            kept.push(MonitorOverride { monitor, image, mode, blur });
            self.monitor_overrides = kept;
        }
        true
    }
}

/// After a wallpaper is recorded for one monitor, exactly one override names
/// that monitor, the last one, which holds the new wallpaper; the overrides
/// of other monitors stay, in their order; and no two overrides name the
/// same monitor if none did before.
pub proof fn lemma_record_replaces_override(overrides: Seq<MonitorOverride>, new: MonitorOverride)
    ensures
        ({
            let after = overrides.filter(for_other_monitor(new.monitor@)).push(new);
            &&& after.last() == new
            &&& forall|i: int| 0 <= i < after.len() - 1 ==> after[i].monitor@ != new.monitor@
            &&& after.drop_last() == overrides.filter(for_other_monitor(new.monitor@))
            &&& monitors_distinct(overrides) ==> monitors_distinct(after)
        }),
{
    let pred = for_other_monitor(new.monitor@);
    let kept = overrides.filter(pred);
    let after = kept.push(new);
    assert(after.drop_last() =~= kept);
    assert(after.len() == kept.len() + 1);
    assert forall|i: int| 0 <= i < after.len() - 1 implies after[i].monitor@ != new.monitor@ by {
        overrides.lemma_filter_pred(pred, i);
    }
    if monitors_distinct(overrides) {
        lemma_filter_keeps_distinct(overrides, pred);
    }
}

/// Keeping some overrides of a list in which no two name the same monitor
/// gives such a list again.
proof fn lemma_filter_keeps_distinct(overrides: Seq<MonitorOverride>, pred: spec_fn(MonitorOverride) -> bool)
    requires
        monitors_distinct(overrides),
    ensures
        monitors_distinct(overrides.filter(pred)),
        forall|i: int|
            0 <= i < overrides.filter(pred).len() ==> overrides.contains(
                #[trigger] overrides.filter(pred)[i],
            ),
    decreases overrides.len(),
{
    reveal_with_fuel(Seq::filter, 1);
    if overrides.len() > 0 {
        let rest = overrides.drop_last();
        assert(monitors_distinct(rest)) by {
            assert forall|i: int, j: int|
                0 <= i < rest.len() && 0 <= j < rest.len() && i != j implies rest[i].monitor@
                != rest[j].monitor@ by {
                assert(rest[i] == overrides[i] && rest[j] == overrides[j]);
            }
        }
        lemma_filter_keeps_distinct(rest, pred);
        let kept = rest.filter(pred);
        assert forall|i: int| 0 <= i < kept.len() implies kept[i].monitor@ != overrides.last().monitor@ by {
            assert(rest.contains(kept[i]));
            let k = choose|k: int| 0 <= k < rest.len() && rest[k] == kept[i];
            assert(overrides[k] == rest[k]);
            assert(overrides[overrides.len() - 1] == overrides.last());
        }
        lemma_filter_within(overrides, pred);
    }
}

/// Every override kept by a filter is one of the list.
proof fn lemma_filter_within(overrides: Seq<MonitorOverride>, pred: spec_fn(MonitorOverride) -> bool)
    ensures
        forall|i: int|
            0 <= i < overrides.filter(pred).len() ==> overrides.contains(
                #[trigger] overrides.filter(pred)[i],
            ),
    decreases overrides.len(),
{
    reveal_with_fuel(Seq::filter, 1);
    if overrides.len() > 0 {
        let rest = overrides.drop_last();
        lemma_filter_within(rest, pred);
        let kept = rest.filter(pred);
        assert forall|i: int| 0 <= i < overrides.filter(pred).len() implies overrides.contains(
            #[trigger] overrides.filter(pred)[i],
        ) by {
            if i < kept.len() {
                assert(rest.contains(kept[i]));
                let k = choose|k: int| 0 <= k < rest.len() && rest[k] == kept[i];
                assert(overrides[k] == rest[k]);
            } else {
                assert(overrides[overrides.len() - 1] == overrides.last());
            }
        }
    }
}

/// Whether the default blur, if any, and the blur of every override lie in
/// 1 to 30.
pub open spec fn blurs_in_range(default_blur: Option<u32>, overrides: Seq<MonitorOverride>) -> bool {
    &&& (default_blur matches Some(b) ==> blur_in_range(b))
    &&& forall|i: int| 0 <= i < overrides.len() ==> blur_in_range(#[trigger] overrides[i].blur)
}

/// Recording a wallpaper keeps every saved blur in 1 to 30: a recording for
/// every monitor sets the default blur, one for a single monitor keeps some
/// of the overrides and adds one, each time with a blur the recording
/// accepted.
pub proof fn lemma_record_keeps_blurs_in_range(
    default_blur: Option<u32>,
    overrides: Seq<MonitorOverride>,
    new: MonitorOverride,
)
    requires
        blurs_in_range(default_blur, overrides),
        blur_in_range(new.blur),
    ensures
        blurs_in_range(Some(new.blur), overrides),
        blurs_in_range(default_blur, overrides.filter(for_other_monitor(new.monitor@)).push(new)),
{
    let kept = overrides.filter(for_other_monitor(new.monitor@));
    lemma_filter_within(overrides, for_other_monitor(new.monitor@));
    let after = kept.push(new);
    assert forall|i: int| 0 <= i < after.len() implies blur_in_range(#[trigger] after[i].blur) by {
        if i < kept.len() {
            assert(after[i] == kept[i]);
            assert(overrides.contains(kept[i]));
            let k = choose|k: int| 0 <= k < overrides.len() && overrides[k] == kept[i];
            assert(blur_in_range(overrides[k].blur));
        } else {
            assert(after[i] == new);
        }
    }
}

} // verus!
