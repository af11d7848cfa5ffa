//! What the settings leave behind, and that they can be undone.
use vstd::prelude::*;

use crate::dialogue::{then_do, Dialogue};
use crate::host::{done_of, output_of, RequestView, Talk};
use crate::ini::{default_engine, patched, s1_engine, s1_engine_extra, text_file, PatchView};
use crate::machine::{group_held, held, lemma_held_end, lemma_held_then, Machine};
use crate::optimizer::{
    and_step, apply_nvidia_tweaks_talk, apply_patches_talk, apply_profile_talk, backup_once_talk,
    check_dxvk_installed_talk, check_exe_laa_talk, check_game_bar_disabled_talk, check_ini_aggressive_talk,
    check_ini_patched_talk, check_lfh_enabled_talk, check_nvidia_tweaks_talk, d3d9, default_ini,
    disable_game_bar_talk, dxvk_conf, dxvk_talk, enable_game_bar_talk, enable_lfh_talk, entered, exe,
    extras_talk, game_bar_off_values, game_bar_on_values, get_status_talk, install_dxvk_talk, keep_d3d9_talk,
    memory_talk, nvidia_values, patch_exe_laa_talk, patch_ini_aggressive_talk, patch_ini_files_talk,
    place_conf_talk, read_text_talk, report, restore_backup_talk, revert_all_talk, revert_exe_laa_talk,
    revert_ini_files_talk, s1_ini, set_laa_talk, set_values_talk, uninstall_dxvk_talk, write_text_talk, Profile,
    RegView, ReportView,
};
use crate::pe::{apart, laa_set, law_flag_is_set, LaaView};
use crate::place::{spec_at, Location, Place};
use crate::step::{told, StepView};
use crate::text::Text;

verus! {

/// One of the files that are changed in place: the settings files and the program.
pub open spec fn changed_in_place(l: Location) -> bool {
    l == s1_ini() || l == default_ini() || l == exe()
}

/// Whether the file `l` as it was at first, `first`, is not lost: its backup is
/// that, or there is no backup and the file is still that.
pub open spec fn safe(m: Machine, l: Location, first: Seq<u8>) -> bool {
    if m.has(l.backup()) {
        m.files[l.backup()] == first
    } else {
        m.has(l) && m.files[l] == first
    }
}

/// Whether going from `m` to `n` leaves the file `l` as it was at first safe. A
/// backup that is there stays.
pub open spec fn safely(m: Machine, n: Machine, l: Location, first: Seq<u8>) -> bool {
    &&& safe(n, l, first)
    &&& m.has(l.backup()) ==> n.has(l.backup())
    &&& n.wf()
    &&& n.refuses == m.refuses
}

/// Whether a conversation leaves the file `l` as it was at first safe, on every
/// machine, whatever that refuses.
pub open spec fn keeps<R>(d: Talk<R>, l: Location) -> bool {
    forall|m: Machine, first: Seq<u8>|
        #![trigger held(d, m), safe(m, l, first)]
        m.wf() && safe(m, l, first) ==> safely(m, held(d, m).0, l, first)
}

/// What keeping a copy of a file comes to.
pub proof fn lemma_backup_once(m: Machine, l: Location)
    requires
        !l.backup,
        m.wf(),
        l.place != Place::Binaries && l.place != Place::S1Data,
    ensures
        ({
            let (after, r) = held(backup_once_talk(l), m);
            if m.has(l.backup()) || !m.has(l) {
                after == m && r is Ok
            } else if r is Ok {
                after == m.with(l.backup(), m.files[l])
            } else {
                after == m
            }
        }),
{
    broadcast use group_held;

}

/// Reading a text changes nothing, and writing one at most its file.
proof fn lemma_text_files(m: Machine, l: Location, t: Text, utf16: bool)
    ensures
        held(read_text_talk(l), m).0 == m,
        ({
            let (after, r) = held(write_text_talk(l, t, utf16), m);
            after == m || after == m.with(l, text_file(t, utf16))
        }),
{
    broadcast use group_held;

}

/// Writing the program once its flag is set changes at most the program.
proof fn lemma_set_laa(m: Machine, set: Result<LaaView, Text>)
    ensures
        ({
            let after = held(set_laa_talk(set), m).0;
            after == m || (exists|b: Seq<u8>| after == #[trigger] m.with(exe(), b))
        }),
{
    broadcast use group_held;

}

/// Replacements in a file leave every file that is changed in place safe.
proof fn lemma_apply_patches_keeps(target: Location, patches: Seq<PatchView>, l: Location)
    requires
        changed_in_place(target),
        changed_in_place(l),
    ensures
        keeps(apply_patches_talk(target, patches), l),
{
    assert forall|m: Machine, first: Seq<u8>|
        #![trigger held(apply_patches_talk(target, patches), m), safe(m, l, first)]
        m.wf() && safe(m, l, first) implies safely(m, held(apply_patches_talk(target, patches), m).0, l, first) by {
        broadcast use group_held;

        lemma_backup_once(m, target);
        let mid = held(backup_once_talk(target), m).0;
        let read = held(read_text_talk(target), mid).1;
        if let Ok((t, utf16)) = read {
            lemma_text_files(mid, target, patched(t, patches, patches.len() as int), utf16);
        } else {
            lemma_text_files(mid, target, Seq::empty(), true);
        }
    }
}

/// So does setting the flag of the program.
proof fn lemma_patch_exe_keeps(l: Location)
    requires
        changed_in_place(l),
    ensures
        keeps(patch_exe_laa_talk(), l),
{
    assert forall|m: Machine, first: Seq<u8>|
        #![trigger held(patch_exe_laa_talk(), m), safe(m, l, first)]
        m.wf() && safe(m, l, first) implies safely(m, held(patch_exe_laa_talk(), m).0, l, first) by {
        broadcast use group_held;

        lemma_backup_once(m, exe());
        let mid = held(backup_once_talk(exe()), m).0;
        assert forall|set: Result<LaaView, Text>|
            safely(mid, #[trigger] held(set_laa_talk(set), mid).0, l, first) || !mid.has(exe().backup()) by {
            lemma_set_laa(mid, set);
        }
    }
}

/// Of two conversations that keep a file safe, one after the other does.
proof fn lemma_then_keeps<R, S>(first: Talk<R>, rest: spec_fn(R) -> Talk<S>, l: Location)
    requires
        keeps(first, l),
        forall|r: R| keeps(#[trigger] rest(r), l),
    ensures
        keeps(then_do(first, rest), l),
{
    broadcast use group_held;

    assert forall|m: Machine, b: Seq<u8>|
        #![trigger held(then_do(first, rest), m), safe(m, l, b)]
        m.wf() && safe(m, l, b) implies safely(m, held(then_do(first, rest), m).0, l, b) by {
        let (mid, r) = held(first, m);
        assert(safely(m, mid, l, b));
        assert(keeps(rest(r), l));
    }
}

/// A step that keeps a file safe, put behind others, does.
proof fn lemma_step_keeps(
    steps: Seq<StepView>,
    step: Talk<Result<StepView, Text>>,
    name: Text,
    rest: spec_fn(Seq<StepView>) -> Talk<Seq<StepView>>,
    l: Location,
)
    requires
        keeps(step, l),
        forall|s: Seq<StepView>| keeps(#[trigger] rest(s), l),
    ensures
        keeps(and_step(steps, step, name, rest), l),
{
    lemma_then_keeps(
        step,
        |r: Result<StepView, Text>| rest(steps.push(entered(r, name))),
        l,
    );
}

/// A conversation that ends at once keeps every file safe.
proof fn lemma_end_keeps<R>(r: R, l: Location)
    ensures
        keeps::<R>(Dialogue::End(r), l),
{
    broadcast use group_held;

}

/// What is told to the registry tool changes no file.
proof fn lemma_set_values(values: Seq<RegView>, with_key: bool, i: int, errors: Seq<Text>, m: Machine)
    ensures
        held(set_values_talk(values, with_key, i, errors), m).0 == m,
    decreases values.len() - i,
{
    broadcast use group_held;

    if 0 <= i < values.len() {
        let q = output_of(RequestView::Registry(values[i].add_args()));
        let r = held(q, m).1;
        lemma_set_values(
            values,
            with_key,
            i + 1,
            match values[i].failure(with_key, r) {
                Some(e) => errors.push(e),
                None => errors,
            },
            m,
        );
    }
}

/// The settings of Windows change no file.
proof fn lemma_registry_steps(windows: bool, m: Machine)
    ensures
        held(enable_lfh_talk(windows), m).0 == m,
        held(disable_game_bar_talk(windows), m).0 == m,
        held(enable_game_bar_talk(windows), m).0 == m,
        held(apply_nvidia_tweaks_talk(windows), m).0 == m,
{
    broadcast use group_held;

    lemma_set_values(game_bar_off_values(), true, 0, Seq::empty(), m);
    lemma_set_values(game_bar_on_values(), true, 0, Seq::empty(), m);
    lemma_set_values(nvidia_values(), false, 0, Seq::empty(), m);
}

/// The settings of Windows keep every file safe.
proof fn lemma_registry_keeps(windows: bool, l: Location)
    ensures
        keeps(enable_lfh_talk(windows), l),
        keeps(disable_game_bar_talk(windows), l),
        keeps(enable_game_bar_talk(windows), l),
        keeps(apply_nvidia_tweaks_talk(windows), l),
{
    assert forall|m: Machine|
        #![trigger held(enable_lfh_talk(windows), m)]
        #![trigger held(disable_game_bar_talk(windows), m)]
        #![trigger held(enable_game_bar_talk(windows), m)]
        #![trigger held(apply_nvidia_tweaks_talk(windows), m)]
        held(enable_lfh_talk(windows), m).0 == m && held(disable_game_bar_talk(windows), m).0 == m && held(
            enable_game_bar_talk(windows),
            m,
        ).0 == m && held(apply_nvidia_tweaks_talk(windows), m).0 == m by {
        lemma_registry_steps(windows, m);
    }
}

/// Replacements in the settings files leave every file that is changed in place
/// safe.
proof fn lemma_patch_ini_keeps(l: Location)
    requires
        changed_in_place(l),
    ensures
        keeps(patch_ini_files_talk(), l),
        keeps(patch_ini_aggressive_talk(), l),
{
    lemma_apply_patches_keeps(s1_ini(), s1_engine(), l);
    lemma_apply_patches_keeps(default_ini(), default_engine(), l);
    lemma_apply_patches_keeps(s1_ini(), s1_engine_extra(), l);
    broadcast use group_held;

}

/// What keeping the graphics library comes to.
pub proof fn lemma_keep_d3d9(m: Machine)
    requires
        m.wf(),
    ensures
        ({
            let (after, r) = held(keep_d3d9_talk(), m);
            ||| after == m
            ||| m.has(d3d9()) && !m.has(d3d9().backup()) && after == m.with(d3d9().backup(), m.files[d3d9()])
        }),
        ({
            let (after, r) = held(keep_d3d9_talk(), m);
            r is Ok && m.has(d3d9()) && m.files[d3d9()].len() < 4_000_000 ==> after.has(d3d9().backup())
        }),
{
    broadcast use group_held;

    lemma_backup_once(m, d3d9());
}

/// What placing the DXVK settings comes to.
pub proof fn lemma_place_conf(m: Machine)
    ensures
        ({
            let after = held(place_conf_talk(), m).0;
            after == m || (exists|b: Seq<u8>| after == #[trigger] m.with(dxvk_conf(), b))
        }),
{
    broadcast use group_held;

}

/// What installing DXVK comes to: the settings may be placed, the library replaced,
/// and a backup of it made.
pub proof fn lemma_install_dxvk(m: Machine, l: Location)
    requires
        m.wf(),
        l != d3d9(),
        l != dxvk_conf(),
        l != d3d9().backup(),
    ensures
        ({
            let after = held(install_dxvk_talk(), m).0;
            &&& after.wf()
            &&& after.refuses == m.refuses
            &&& after.has(l) == m.has(l)
            &&& after.files[l] == m.files[l]
        }),
{
    broadcast use group_held;

    lemma_keep_d3d9(m);
    let mid = held(keep_d3d9_talk(), m).0;
    let copied = held(done_of(RequestView::CopyFile(spec_at(Place::DxvkDllSource), d3d9())), mid).0;
    lemma_place_conf(copied);
}

/// What taking DXVK away comes to: at most the library changes.
proof fn lemma_uninstall_dxvk(m: Machine, l: Location)
    requires
        m.wf(),
        l != d3d9(),
    ensures
        ({
            let after = held(uninstall_dxvk_talk(), m).0;
            &&& after.wf()
            &&& after.refuses == m.refuses
            &&& after.has(l) == m.has(l)
            &&& after.files[l] == m.files[l]
        }),
{
    broadcast use group_held;

}

/// Installing and taking away DXVK leaves every file that is changed in place safe.
proof fn lemma_dxvk_keeps(l: Location)
    requires
        changed_in_place(l),
    ensures
        keeps(install_dxvk_talk(), l),
        keeps(uninstall_dxvk_talk(), l),
{
    assert forall|m: Machine, first: Seq<u8>|
        #![trigger held(install_dxvk_talk(), m), safe(m, l, first)]
        m.wf() && safe(m, l, first) implies safely(m, held(install_dxvk_talk(), m).0, l, first) by {
        lemma_install_dxvk(m, l);
        lemma_install_dxvk(m, l.backup());
    }
    assert forall|m: Machine, first: Seq<u8>|
        #![trigger held(uninstall_dxvk_talk(), m), safe(m, l, first)]
        m.wf() && safe(m, l, first) implies safely(m, held(uninstall_dxvk_talk(), m).0, l, first) by {
        lemma_uninstall_dxvk(m, l);
        lemma_uninstall_dxvk(m, l.backup());
    }
}

/// Putting a backup in its place leaves every file that is changed in place safe.
proof fn lemma_restore_keeps(target: Location, l: Location)
    requires
        changed_in_place(target),
        changed_in_place(l),
    ensures
        keeps(restore_backup_talk(target), l),
{
    broadcast use group_held;

}

/// Undoing a step leaves every file that is changed in place safe.
proof fn lemma_revert_keeps(l: Location)
    requires
        changed_in_place(l),
    ensures
        keeps(revert_ini_files_talk(), l),
        keeps(revert_exe_laa_talk(), l),
{
    broadcast use group_held;

    lemma_restore_keeps(s1_ini(), l);
    lemma_restore_keeps(default_ini(), l);
    lemma_restore_keeps(exe(), l);
}

/// The steps that let the game use more memory leave every file that is changed in
/// place safe.
proof fn lemma_memory_keeps(profile: Profile, windows: bool, steps: Seq<StepView>, l: Location)
    requires
        changed_in_place(l),
    ensures
        keeps(memory_talk(profile, windows, steps), l),
{
    lemma_patch_exe_keeps(l);
    lemma_registry_keeps(windows, l);
    let last = |s: Seq<StepView>| Dialogue::<_, _, Seq<StepView>>::End(s);
    assert forall|s: Seq<StepView>| keeps(#[trigger] last(s), l) by {
        lemma_end_keeps(s, l);
    }
    let lfh = |s: Seq<StepView>| and_step(s, enable_lfh_talk(windows), "LFH enable"@, last);
    assert forall|s: Seq<StepView>| keeps(#[trigger] lfh(s), l) by {
        lemma_step_keeps(s, enable_lfh_talk(windows), "LFH enable"@, last, l);
    }
    lemma_step_keeps(steps, patch_exe_laa_talk(), "LAA patch"@, lfh, l);
    lemma_end_keeps(steps, l);
}

/// The step that installs DXVK leaves every file that is changed in place safe.
proof fn lemma_dxvk_step_keeps(profile: Profile, bundled: bool, steps: Seq<StepView>, l: Location)
    requires
        changed_in_place(l),
    ensures
        keeps(dxvk_talk(profile, bundled, steps), l),
{
    lemma_dxvk_keeps(l);
    let last = |s: Seq<StepView>| Dialogue::<_, _, Seq<StepView>>::End(s);
    assert forall|s: Seq<StepView>| keeps(#[trigger] last(s), l) by {
        lemma_end_keeps(s, l);
    }
    lemma_step_keeps(steps, install_dxvk_talk(), "DXVK install"@, last, l);
    lemma_end_keeps(steps, l);
    lemma_end_keeps(steps.push(told("DXVK install"@, false, "bundled DXVK resources not provided"@)), l);
}

/// The steps that go furthest leave every file that is changed in place safe.
proof fn lemma_extras_keeps(profile: Profile, windows: bool, steps: Seq<StepView>, l: Location)
    requires
        changed_in_place(l),
    ensures
        keeps(extras_talk(profile, windows, steps), l),
{
    lemma_patch_ini_keeps(l);
    lemma_registry_keeps(windows, l);
    let last = |s: Seq<StepView>| Dialogue::<_, _, Seq<StepView>>::End(s);
    assert forall|s: Seq<StepView>| keeps(#[trigger] last(s), l) by {
        lemma_end_keeps(s, l);
    }
    let nvidia = |s: Seq<StepView>| and_step(s, apply_nvidia_tweaks_talk(windows), "NVIDIA tweaks"@, last);
    assert forall|s: Seq<StepView>| keeps(#[trigger] nvidia(s), l) by {
        lemma_step_keeps(s, apply_nvidia_tweaks_talk(windows), "NVIDIA tweaks"@, last, l);
    }
    let bar = |s: Seq<StepView>| and_step(s, disable_game_bar_talk(windows), "Game Bar disable"@, nvidia);
    assert forall|s: Seq<StepView>| keeps(#[trigger] bar(s), l) by {
        lemma_step_keeps(s, disable_game_bar_talk(windows), "Game Bar disable"@, nvidia, l);
    }
    lemma_step_keeps(steps, patch_ini_aggressive_talk(), "INI aggressive"@, bar, l);
    lemma_end_keeps(steps, l);
}

/// Making the settings of a profile leaves every file that is changed in place
/// safe.
proof fn lemma_profile_keeps(profile: Profile, bundled: bool, windows: bool, l: Location)
    requires
        changed_in_place(l),
    ensures
        keeps(apply_profile_talk(profile, bundled, windows), l),
{
    lemma_patch_ini_keeps(l);
    let memory = |s: Seq<StepView>| memory_talk(profile, windows, s);
    assert forall|s: Seq<StepView>| keeps(#[trigger] memory(s), l) by {
        lemma_memory_keeps(profile, windows, s, l);
    }
    lemma_step_keeps(Seq::empty(), patch_ini_files_talk(), "INI patches"@, memory, l);
    let last = |s: Seq<StepView>| Dialogue::<_, _, ReportView>::End(report(s));
    assert forall|s: Seq<StepView>| keeps(#[trigger] last(s), l) by {
        lemma_end_keeps(report(s), l);
    }
    let extras = |s: Seq<StepView>| then_do(extras_talk(profile, windows, s), last);
    assert forall|s: Seq<StepView>| keeps(#[trigger] extras(s), l) by {
        lemma_extras_keeps(profile, windows, s, l);
        lemma_then_keeps(extras_talk(profile, windows, s), last, l);
    }
    let dxvk = |s: Seq<StepView>| then_do(dxvk_talk(profile, bundled, s), extras);
    assert forall|s: Seq<StepView>| keeps(#[trigger] dxvk(s), l) by {
        lemma_dxvk_step_keeps(profile, bundled, s, l);
        lemma_then_keeps(dxvk_talk(profile, bundled, s), extras, l);
    }
    lemma_then_keeps(and_step(Seq::empty(), patch_ini_files_talk(), "INI patches"@, memory), dxvk, l);
}

/// Undoing the settings leaves every file that is changed in place safe.
proof fn lemma_revert_all_keeps(windows: bool, l: Location)
    requires
        changed_in_place(l),
    ensures
        keeps(revert_all_talk(windows), l),
{
    lemma_revert_keeps(l);
    lemma_dxvk_keeps(l);
    lemma_registry_keeps(windows, l);
    let last = |s: Seq<StepView>| Dialogue::<_, _, Seq<StepView>>::End(s);
    assert forall|s: Seq<StepView>| keeps(#[trigger] last(s), l) by {
        lemma_end_keeps(s, l);
    }
    let bar = |s: Seq<StepView>| and_step(s, enable_game_bar_talk(windows), "Game Bar revert"@, last);
    assert forall|s: Seq<StepView>| keeps(#[trigger] bar(s), l) by {
        lemma_step_keeps(s, enable_game_bar_talk(windows), "Game Bar revert"@, last, l);
    }
    let dxvk = |s: Seq<StepView>| and_step(s, uninstall_dxvk_talk(), "DXVK uninstall"@, bar);
    assert forall|s: Seq<StepView>| keeps(#[trigger] dxvk(s), l) by {
        lemma_step_keeps(s, uninstall_dxvk_talk(), "DXVK uninstall"@, bar, l);
    }
    let laa = |s: Seq<StepView>| and_step(s, revert_exe_laa_talk(), "LAA revert"@, dxvk);
    assert forall|s: Seq<StepView>| keeps(#[trigger] laa(s), l) by {
        lemma_step_keeps(s, revert_exe_laa_talk(), "LAA revert"@, dxvk, l);
    }
    lemma_step_keeps(Seq::empty(), revert_ini_files_talk(), "INI revert"@, laa, l);
    let end = |s: Seq<StepView>| Dialogue::<_, _, ReportView>::End(report(s));
    assert forall|s: Seq<StepView>| keeps(#[trigger] end(s), l) by {
        lemma_end_keeps(report(s), l);
    }
    lemma_then_keeps(and_step(Seq::empty(), revert_ini_files_talk(), "INI revert"@, laa), end, l);
}

/// A settings file or the program, as it was before the first change, is never
/// lost: whatever is done or undone, and whatever fails on the way, its backup
/// holds it, or the file itself still does. A backup that is made stays as it is.
pub proof fn law_first_version_is_safe(l: Location, profile: Profile, bundled: bool, windows: bool)
    requires
        changed_in_place(l),
    ensures
        keeps(apply_profile_talk(profile, bundled, windows), l),
        keeps(revert_all_talk(windows), l),
        keeps(patch_ini_files_talk(), l),
        keeps(patch_ini_aggressive_talk(), l),
        keeps(patch_exe_laa_talk(), l),
        keeps(install_dxvk_talk(), l),
        keeps(uninstall_dxvk_talk(), l),
        keeps(revert_ini_files_talk(), l),
        keeps(revert_exe_laa_talk(), l),
{
    lemma_profile_keeps(profile, bundled, windows, l);
    lemma_revert_all_keeps(windows, l);
    lemma_patch_ini_keeps(l);
    lemma_patch_exe_keeps(l);
    lemma_dxvk_keeps(l);
    lemma_revert_keeps(l);
}

/// The machine with the backup of a file, where there is one, put in its place.
pub open spec fn restored(m: Machine, l: Location) -> Machine {
    if m.has(l.backup()) {
        m.with(l, m.files[l.backup()])
    } else {
        m
    }
}

/// What putting a backup in its place comes to.
pub proof fn lemma_restore(m: Machine, l: Location)
    requires
        m.willing(),
    ensures
        held(restore_backup_talk(l), m) == (restored(m, l), Ok::<bool, Text>(m.has(l.backup()))),
{
    broadcast use group_held;

}

/// What undoing single steps comes to.
proof fn lemma_reverts(m: Machine)
    requires
        m.willing(),
    ensures
        held(revert_ini_files_talk(), m).0 == restored(restored(m, s1_ini()), default_ini()),
        held(revert_exe_laa_talk(), m).0 == restored(m, exe()),
{
    broadcast use group_held;

    lemma_restore(m, s1_ini());
    lemma_restore(restored(m, s1_ini()), default_ini());
    lemma_restore(m, exe());
}

/// What undoing all of them comes to, and what is told of it.
pub proof fn lemma_revert_all(m: Machine, windows: bool)
    requires
        m.willing(),
    ensures
        ({
            let m1 = restored(restored(m, s1_ini()), default_ini());
            let m2 = restored(m1, exe());
            let m3 = held(uninstall_dxvk_talk(), m2).0;
            held(revert_all_talk(windows), m) == (
                m3,
                report(
                    seq![
                        entered(held(revert_ini_files_talk(), m).1, "INI revert"@),
                        entered(held(revert_exe_laa_talk(), m1).1, "LAA revert"@),
                        entered(held(uninstall_dxvk_talk(), m2).1, "DXVK uninstall"@),
                        entered(held(enable_game_bar_talk(windows), m3).1, "Game Bar revert"@),
                    ],
                ),
            )
        }),
{
    let m1 = restored(restored(m, s1_ini()), default_ini());
    let m2 = restored(m1, exe());
    lemma_reverts(m);
    lemma_reverts(m1);
    lemma_registry_steps(windows, held(uninstall_dxvk_talk(), m2).0);
    let last = |s: Seq<StepView>| Dialogue::<_, _, Seq<StepView>>::End(s);
    let bar = |s: Seq<StepView>| and_step(s, enable_game_bar_talk(windows), "Game Bar revert"@, last);
    let dxvk = |s: Seq<StepView>| and_step(s, uninstall_dxvk_talk(), "DXVK uninstall"@, bar);
    let laa = |s: Seq<StepView>| and_step(s, revert_exe_laa_talk(), "LAA revert"@, dxvk);
    let end = |s: Seq<StepView>| Dialogue::<_, _, ReportView>::End(report(s));
    let s0 = Seq::<StepView>::empty();
    let s1 = lemma_and_step(s0, revert_ini_files_talk(), "INI revert"@, laa, m);
    let s2 = lemma_and_step(s1, revert_exe_laa_talk(), "LAA revert"@, dxvk, m1);
    let s3 = lemma_and_step(s2, uninstall_dxvk_talk(), "DXVK uninstall"@, bar, m2);
    let m3 = held(uninstall_dxvk_talk(), m2).0;
    let s4 = lemma_and_step(s3, enable_game_bar_talk(windows), "Game Bar revert"@, last, m3);
    lemma_held_end(s4, m3);
    lemma_held_then(and_step(s0, revert_ini_files_talk(), "INI revert"@, laa), end, m);
    lemma_held_end(report(s4), m3);
    assert(s4 =~= seq![
        entered(held(revert_ini_files_talk(), m).1, "INI revert"@),
        entered(held(revert_exe_laa_talk(), m1).1, "LAA revert"@),
        entered(held(uninstall_dxvk_talk(), m2).1, "DXVK uninstall"@),
        entered(held(enable_game_bar_talk(windows), m3).1, "Game Bar revert"@),
    ]);
}

/// What going on with a step comes to: the steps that `rest` goes on with.
proof fn lemma_and_step(
    steps: Seq<StepView>,
    step: Talk<Result<StepView, Text>>,
    name: Text,
    rest: spec_fn(Seq<StepView>) -> Talk<Seq<StepView>>,
    m: Machine,
) -> (next: Seq<StepView>)
    ensures
        next == steps.push(entered(held(step, m).1, name)),
        held(and_step(steps, step, name, rest), m) == held(rest(next), held(step, m).0),
{
    lemma_held_then(step, |r: Result<StepView, Text>| rest(steps.push(entered(r, name))), m);
    steps.push(entered(held(step, m).1, name))
}

/// A settings file or the program whose first version is safe is that version again
/// once the settings are undone, on a machine that refuses nothing.
pub proof fn law_undoing_restores(m: Machine, l: Location, first: Seq<u8>, windows: bool)
    requires
        m.wf(),
        m.willing(),
        changed_in_place(l),
        safe(m, l, first),
    ensures
        ({
            let after = held(revert_all_talk(windows), m).0;
            after.has(l) && after.files[l] == first
        }),
        l != exe() ==> ({
            let after = held(revert_ini_files_talk(), m).0;
            after.has(l) && after.files[l] == first
        }),
        l == exe() ==> ({
            let after = held(revert_exe_laa_talk(), m).0;
            after.has(l) && after.files[l] == first
        }),
{
    lemma_reverts(m);
    lemma_revert_all(m, windows);
    lemma_uninstall_dxvk(restored(restored(restored(m, s1_ini()), default_ini()), exe()), l);
}

/// Making the settings of a profile and undoing them leaves the settings files and
/// the program as they were, on a machine that refuses nothing and holds no
/// backups of them yet.
pub proof fn law_profile_is_undone(
    m: Machine,
    l: Location,
    profile: Profile,
    bundled: bool,
    windows: bool,
)
    requires
        m.wf(),
        m.willing(),
        changed_in_place(l),
        m.has(l),
        !m.has(l.backup()),
    ensures
        ({
            let made = held(apply_profile_talk(profile, bundled, windows), m).0;
            let after = held(revert_all_talk(windows), made).0;
            after.has(l) && after.files[l] == m.files[l]
        }),
{
    let made = held(apply_profile_talk(profile, bundled, windows), m).0;
    law_first_version_is_safe(l, profile, bundled, windows);
    assert(safe(m, l, m.files[l]));
    assert(safely(m, made, l, m.files[l]));
    law_undoing_restores(made, l, m.files[l], windows);
}

/// What installing DXVK comes to on a machine that refuses nothing and has all that
/// it takes.
proof fn lemma_installed(m: Machine)
    requires
        m.wf(),
        m.willing(),
        m.folders.contains(Place::Binaries),
        m.has(spec_at(Place::DxvkDllSource)),
        m.has(dxvk_conf()) || m.has(spec_at(Place::DxvkConfSource)),
    ensures
        ({
            let (after, r) = held(install_dxvk_talk(), m);
            &&& r is Ok
            &&& after.willing()
            &&& after.wf()
            &&& after.has(d3d9())
            &&& after.files[d3d9()] == m.files[spec_at(Place::DxvkDllSource)]
            &&& m.has(d3d9().backup()) ==> after.has(d3d9().backup()) && after.files[d3d9().backup()]
                == m.files[d3d9().backup()]
            &&& !m.has(d3d9().backup()) && !m.has(d3d9()) ==> !after.has(d3d9().backup())
            &&& !m.has(d3d9().backup()) && m.has(d3d9()) && m.files[d3d9()].len() < 4_000_000
                ==> after.has(d3d9().backup()) && after.files[d3d9().backup()] == m.files[d3d9()]
        }),
{
    lemma_keep_d3d9(m);
    let (mid, kept) = held(keep_d3d9_talk(), m);
    assert(kept is Ok) by {
        broadcast use group_held;

    }
    let copied = held(done_of(RequestView::CopyFile(spec_at(Place::DxvkDllSource), d3d9())), mid).0;
    lemma_place_conf(copied);
    assert(held(place_conf_talk(), copied).1 is Ok) by {
        broadcast use group_held;

    }
    broadcast use group_held;

}

/// Installing DXVK and taking it away again leaves the graphics library as it was,
/// on a machine that refuses nothing and has all that it takes. A library of four
/// million bytes or more counts as a DXVK library and is left out.
pub proof fn law_dxvk_is_undone(m: Machine)
    requires
        m.wf(),
        m.willing(),
        m.folders.contains(Place::Binaries),
        m.has(spec_at(Place::DxvkDllSource)),
        m.has(dxvk_conf()) || m.has(spec_at(Place::DxvkConfSource)),
        !m.has(d3d9().backup()),
        m.has(d3d9()) ==> m.files[d3d9()].len() < 4_000_000,
    ensures
        ({
            let made = held(install_dxvk_talk(), m).0;
            let after = held(uninstall_dxvk_talk(), made).0;
            &&& after.has(d3d9()) == m.has(d3d9())
            &&& m.has(d3d9()) ==> after.files[d3d9()] == m.files[d3d9()]
        }),
{
    lemma_installed(m);
    let made = held(install_dxvk_talk(), m).0;
    lemma_restore(made, d3d9());
    broadcast use group_held;

}

/// Once DXVK is installed it counts as installed, where the library that comes with
/// the launcher has more than three million bytes.
pub proof fn law_installed_dxvk_is_found(m: Machine)
    requires
        m.wf(),
        m.willing(),
        m.folders.contains(Place::Binaries),
        m.has(spec_at(Place::DxvkDllSource)),
        m.has(dxvk_conf()) || m.has(spec_at(Place::DxvkConfSource)),
        3_000_000 < m.files[spec_at(Place::DxvkDllSource)].len() <= u64::MAX,
    ensures
        ({
            let made = held(install_dxvk_talk(), m).0;
            held(check_dxvk_installed_talk(), made).1
        }),
{
    lemma_installed(m);
    broadcast use group_held;

}

/// Once the flag of the program is set it is found set, where the program's header
/// is not so near the start that the flag is part of the number that says where it
/// begins.
pub proof fn law_flag_is_found(m: Machine)
    requires
        m.wf(),
        m.willing(),
        held(patch_exe_laa_talk(), m).1 is Ok,
        apart(m.files[exe()]),
    ensures
        ({
            let made = held(patch_exe_laa_talk(), m).0;
            held(check_exe_laa_talk(), made).1 == Ok::<bool, Text>(true)
        }),
{
    broadcast use group_held;

    lemma_backup_once(m, exe());
    let b = m.files[exe()];
    if laa_set(b) is Ok {
        law_flag_is_set(b);
    }
}

/// Whether a conversation changes nothing, on any machine.
pub open spec fn only_reads<R>(d: Talk<R>) -> bool {
    forall|m: Machine| (#[trigger] held(d, m)).0 == m
}

pub proof fn lemma_checks_only_read(windows: bool)
    ensures
        only_reads(check_ini_patched_talk()),
        only_reads(check_ini_aggressive_talk()),
        only_reads(check_exe_laa_talk()),
        only_reads(check_dxvk_installed_talk()),
        only_reads(check_lfh_enabled_talk(windows)),
        only_reads(check_game_bar_disabled_talk(windows)),
        only_reads(check_nvidia_tweaks_talk(windows)),
{
    broadcast use group_held;

}

/// Asking for the state changes nothing.
pub proof fn law_status_changes_nothing(windows: bool)
    ensures
        only_reads(get_status_talk(windows)),
{
    lemma_checks_only_read(windows);
    assert forall|m: Machine| (#[trigger] held(get_status_talk(windows), m)).0 == m by {
        broadcast use {lemma_held_then, lemma_held_end};

        assert(held(check_ini_patched_talk(), m).0 == m);
        assert(held(check_ini_aggressive_talk(), m).0 == m);
        assert(held(check_exe_laa_talk(), m).0 == m);
        assert(held(check_dxvk_installed_talk(), m).0 == m);
        assert(held(check_lfh_enabled_talk(windows), m).0 == m);
        assert(held(check_game_bar_disabled_talk(windows), m).0 == m);
        assert(held(check_nvidia_tweaks_talk(windows), m).0 == m);
    }
}

/// Whether the file `l` is the same on both machines, or on neither.
pub open spec fn same_file(m: Machine, n: Machine, l: Location) -> bool {
    &&& n.wf()
    &&& n.has(l) == m.has(l)
    &&& m.has(l) ==> n.files[l] == m.files[l]
}

/// Replacements in a file change that file and its backup alone.
pub proof fn lemma_apply_patches_changes(target: Location, patches: Seq<PatchView>, m: Machine, l: Location)
    requires
        changed_in_place(target),
        l.place != target.place,
        m.wf(),
    ensures
        same_file(m, held(apply_patches_talk(target, patches), m).0, l),
{
    broadcast use group_held;

    lemma_backup_once(m, target);
    let mid = held(backup_once_talk(target), m).0;
    let read = held(read_text_talk(target), mid).1;
    if let Ok((t, utf16)) = read {
        lemma_text_files(mid, target, patched(t, patches, patches.len() as int), utf16);
    } else {
        lemma_text_files(mid, target, Seq::empty(), true);
    }
}

/// Replacements in the settings files change these and their backups alone.
pub proof fn lemma_patch_ini_changes(m: Machine, l: Location)
    requires
        l.place != Place::S1EngineIni && l.place != Place::DefaultEngineIni,
        m.wf(),
    ensures
        same_file(m, held(patch_ini_files_talk(), m).0, l),
{
    lemma_apply_patches_changes(s1_ini(), s1_engine(), m, l);
    let mid = held(apply_patches_talk(s1_ini(), s1_engine()), m).0;
    lemma_apply_patches_changes(default_ini(), default_engine(), mid, l);
    broadcast use {lemma_held_then, lemma_held_end};

}

/// Setting the flag of the program changes the program and its backup alone.
pub proof fn lemma_patch_exe_changes(m: Machine, l: Location)
    requires
        l.place != Place::TeraExe,
        m.wf(),
    ensures
        same_file(m, held(patch_exe_laa_talk(), m).0, l),
{
    broadcast use group_held;

    lemma_backup_once(m, exe());
    let mid = held(backup_once_talk(exe()), m).0;
    assert forall|set: Result<LaaView, Text>| same_file(mid, #[trigger] held(set_laa_talk(set), mid).0, l) by {
        lemma_set_laa(mid, set);
    }
}

/// The safe profile changes the settings files and their backups alone, and the
/// balanced one the program and its backup besides: neither installs DXVK, and the
/// safe one leaves the program as it is.
pub proof fn law_what_profiles_change(m: Machine, bundled: bool, windows: bool, l: Location)
    requires
        m.wf(),
        l.place != Place::S1EngineIni && l.place != Place::DefaultEngineIni,
    ensures
        same_file(m, held(apply_profile_talk(Profile::Safe, bundled, windows), m).0, l),
        l.place != Place::TeraExe ==> same_file(
            m,
            held(apply_profile_talk(Profile::Balanced, bundled, windows), m).0,
            l,
        ),
{
    lemma_patch_ini_changes(m, l);
    lemma_profile(Profile::Safe, bundled, windows, m);
    lemma_profile(Profile::Balanced, bundled, windows, m);
    if l.place != Place::TeraExe {
        lemma_patch_exe_changes(held(patch_ini_files_talk(), m).0, l);
    }
}

/// The machine after the steps of a profile.
pub open spec fn after_profile(profile: Profile, bundled: bool, m: Machine) -> Machine {
    let m1 = held(patch_ini_files_talk(), m).0;
    let m2 = if profile == Profile::Safe {
        m1
    } else {
        held(patch_exe_laa_talk(), m1).0
    };
    let m3 = if bundled && (profile == Profile::Maximum || profile == Profile::Ultra) {
        held(install_dxvk_talk(), m2).0
    } else {
        m2
    };
    if profile == Profile::Ultra {
        held(patch_ini_aggressive_talk(), m3).0
    } else {
        m3
    }
}

/// Whether the steps of a profile that change files can all be made.
pub open spec fn can_be_made(profile: Profile, bundled: bool, m: Machine) -> bool {
    let m1 = held(patch_ini_files_talk(), m).0;
    let m2 = held(patch_exe_laa_talk(), m1).0;
    let m3 = held(install_dxvk_talk(), m2).0;
    &&& held(patch_ini_files_talk(), m).1 is Ok
    &&& profile != Profile::Safe ==> held(patch_exe_laa_talk(), m1).1 is Ok
    &&& profile == Profile::Maximum || profile == Profile::Ultra ==> bundled && held(install_dxvk_talk(), m2).1 is Ok
    &&& profile == Profile::Ultra ==> held(patch_ini_aggressive_talk(), m3).1 is Ok
}

/// What becomes of the files under a profile. Where the report is a success, each
/// step was made.
pub proof fn lemma_profile(profile: Profile, bundled: bool, windows: bool, m: Machine)
    ensures
        held(apply_profile_talk(profile, bundled, windows), m).0 == after_profile(profile, bundled, m),
        held(apply_profile_talk(profile, bundled, windows), m).1.success ==> can_be_made(profile, bundled, m),
{
    let m1 = held(patch_ini_files_talk(), m).0;
    let m2 = held(patch_exe_laa_talk(), m1).0;
    lemma_registry_steps(windows, m2);
    let last = |s: Seq<StepView>| Dialogue::<_, _, Seq<StepView>>::End(s);
    let lfh = |s: Seq<StepView>| and_step(s, enable_lfh_talk(windows), "LFH enable"@, last);
    let memory = |s: Seq<StepView>| memory_talk(profile, windows, s);
    let empty = Seq::<StepView>::empty();
    let first = and_step(empty, patch_ini_files_talk(), "INI patches"@, memory);
    // The settings files, the program and the heap.
    let s1 = lemma_and_step(empty, patch_ini_files_talk(), "INI patches"@, memory, m);
    assert(s1[0] == entered(held(patch_ini_files_talk(), m).1, "INI patches"@));
    let (n3, s3) = if profile == Profile::Safe {
        lemma_held_end(s1, m1);
        (m1, s1)
    } else {
        let s2 = lemma_and_step(s1, patch_exe_laa_talk(), "LAA patch"@, lfh, m1);
        assert(s2[1] == entered(held(patch_exe_laa_talk(), m1).1, "LAA patch"@));
        let s3 = lemma_and_step(s2, enable_lfh_talk(windows), "LFH enable"@, last, m2);
        lemma_held_end(s3, m2);
        (m2, s3)
    };
    assert(held(first, m) == (n3, s3));
    // DXVK.
    let (n4, s4) = if profile == Profile::Safe || profile == Profile::Balanced {
        lemma_held_end(s3, n3);
        (n3, s3)
    } else if bundled {
        let s4 = lemma_and_step(s3, install_dxvk_talk(), "DXVK install"@, last, n3);
        assert(s4[3] == entered(held(install_dxvk_talk(), n3).1, "DXVK install"@));
        let n4 = held(install_dxvk_talk(), n3).0;
        lemma_held_end(s4, n4);
        (n4, s4)
    } else {
        let s4 = s3.push(told("DXVK install"@, false, "bundled DXVK resources not provided"@));
        assert(!s4[3].ok);
        lemma_held_end(s4, n3);
        (n3, s4)
    };
    assert(held(dxvk_talk(profile, bundled, s3), n3) == (n4, s4));
    // The rest.
    let (n5, s5) = if profile == Profile::Ultra {
        let n5 = held(patch_ini_aggressive_talk(), n4).0;
        lemma_registry_steps(windows, n5);
        let nvidia = |s: Seq<StepView>| and_step(s, apply_nvidia_tweaks_talk(windows), "NVIDIA tweaks"@, last);
        let bar = |s: Seq<StepView>| and_step(s, disable_game_bar_talk(windows), "Game Bar disable"@, nvidia);
        let a = lemma_and_step(s4, patch_ini_aggressive_talk(), "INI aggressive"@, bar, n4);
        assert(a[4] == entered(held(patch_ini_aggressive_talk(), n4).1, "INI aggressive"@));
        let b = lemma_and_step(a, disable_game_bar_talk(windows), "Game Bar disable"@, nvidia, n5);
        let c = lemma_and_step(b, apply_nvidia_tweaks_talk(windows), "NVIDIA tweaks"@, last, n5);
        lemma_held_end(c, n5);
        assert(c[0] == s1[0] && c[1] == s4[1] && c[3] == s4[3] && c[4] == a[4]);
        (n5, c)
    } else {
        lemma_held_end(s4, n4);
        (n4, s4)
    };
    assert(held(extras_talk(profile, windows, s4), n4) == (n5, s5));
    let end = |s: Seq<StepView>| Dialogue::<_, _, ReportView>::End(report(s));
    let extras = |s: Seq<StepView>| then_do(extras_talk(profile, windows, s), end);
    let dxvk = |s: Seq<StepView>| then_do(dxvk_talk(profile, bundled, s), extras);
    lemma_held_then(first, dxvk, m);
    lemma_held_then(dxvk_talk(profile, bundled, s3), extras, n3);
    lemma_held_then(extras_talk(profile, windows, s4), end, n4);
    lemma_held_end(report(s5), n5);
    if report(s5).success {
        assert(s5[0].ok);
        if profile != Profile::Safe {
            assert(s5[1].ok);
        }
        if profile == Profile::Maximum || profile == Profile::Ultra {
            assert(s5[3].ok);
        }
        if profile == Profile::Ultra {
            assert(s5[4].ok);
        }
    }
}

/// A step as it is told: as it came out, or under its name with what went wrong.
pub open spec fn as_told(r: Result<StepView, Text>, name: Text) -> StepView {
    match r {
        Ok(s) => s,
        Err(e) => StepView { name, ok: false, detail: e },
    }
}

/// Making the settings of a profile is making them one after the other, each on the machine
/// that those before left, and whatever became of those: the settings files first; then, but
/// for the safe profile, the flag of the program and the heap; then, for the two largest,
/// DXVK where it comes with the launcher; and for the largest the further settings, the
/// recording of games and the driver. Each is told as it came out.
pub proof fn law_profile_is_its_steps(m: Machine, profile: Profile, bundled: bool, windows: bool)
    ensures
        ({
            let (after, r) = held(apply_profile_talk(profile, bundled, windows), m);
            let ini = held(patch_ini_files_talk(), m);
            let flag = held(patch_exe_laa_talk(), ini.0);
            let heap = held(enable_lfh_talk(windows), flag.0);
            let dxvk = held(install_dxvk_talk(), heap.0);
            let before = if bundled { dxvk.0 } else { heap.0 };
            let further = held(patch_ini_aggressive_talk(), before);
            let bar = held(disable_game_bar_talk(windows), further.0);
            let driver = held(apply_nvidia_tweaks_talk(windows), bar.0);
            let large = profile == Profile::Maximum || profile == Profile::Ultra;
            &&& r.steps[0] == as_told(ini.1, "INI patches"@)
            &&& profile == Profile::Safe ==> after == ini.0 && r.steps.len() == 1
            &&& profile != Profile::Safe ==> {
                &&& r.steps[1] == as_told(flag.1, "LAA patch"@)
                &&& r.steps[2] == as_told(heap.1, "LFH enable"@)
            }
            &&& profile == Profile::Balanced ==> after == heap.0 && r.steps.len() == 3
            &&& large && bundled ==> r.steps[3] == as_told(dxvk.1, "DXVK install"@)
            &&& large && !bundled ==> r.steps[3] == (StepView {
                name: "DXVK install"@,
                ok: false,
                detail: "bundled DXVK resources not provided"@,
            })
            &&& profile == Profile::Maximum ==> after == before && r.steps.len() == 4
            &&& profile == Profile::Ultra ==> {
                &&& after == driver.0
                &&& r.steps.len() == 7
                &&& r.steps[4] == as_told(further.1, "INI aggressive"@)
                &&& r.steps[5] == as_told(bar.1, "Game Bar disable"@)
                &&& r.steps[6] == as_told(driver.1, "NVIDIA tweaks"@)
            }
            &&& r.success <==> forall|i: int| 0 <= i < r.steps.len() ==> (#[trigger] r.steps[i]).ok
        }),
{
    let last = |s: Seq<StepView>| Dialogue::<_, _, Seq<StepView>>::End(s);
    let lfh = |s: Seq<StepView>| and_step(s, enable_lfh_talk(windows), "LFH enable"@, last);
    let memory = |s: Seq<StepView>| memory_talk(profile, windows, s);
    let empty = Seq::<StepView>::empty();
    let first = and_step(empty, patch_ini_files_talk(), "INI patches"@, memory);
    let m1 = held(patch_ini_files_talk(), m).0;
    let s1 = lemma_and_step(empty, patch_ini_files_talk(), "INI patches"@, memory, m);
    assert(s1.len() == 1 && s1[0] == as_told(held(patch_ini_files_talk(), m).1, "INI patches"@));
    let m2 = held(patch_exe_laa_talk(), m1).0;
    let m3 = held(enable_lfh_talk(windows), m2).0;
    let (n3, s3) = if profile == Profile::Safe {
        lemma_held_end(s1, m1);
        (m1, s1)
    } else {
        let s2 = lemma_and_step(s1, patch_exe_laa_talk(), "LAA patch"@, lfh, m1);
        let s3 = lemma_and_step(s2, enable_lfh_talk(windows), "LFH enable"@, last, m2);
        lemma_held_end(s3, m3);
        assert(s3.len() == 3 && s3[0] == s1[0]);
        assert(s3[1] == as_told(held(patch_exe_laa_talk(), m1).1, "LAA patch"@));
        assert(s3[2] == as_told(held(enable_lfh_talk(windows), m2).1, "LFH enable"@));
        (m3, s3)
    };
    assert(held(first, m) == (n3, s3));
    let (n4, s4) = if profile == Profile::Safe || profile == Profile::Balanced {
        lemma_held_end(s3, n3);
        (n3, s3)
    } else if bundled {
        let s4 = lemma_and_step(s3, install_dxvk_talk(), "DXVK install"@, last, n3);
        let n4 = held(install_dxvk_talk(), n3).0;
        lemma_held_end(s4, n4);
        assert(s4[3] == as_told(held(install_dxvk_talk(), n3).1, "DXVK install"@));
        (n4, s4)
    } else {
        let s4 = s3.push(told("DXVK install"@, false, "bundled DXVK resources not provided"@));
        lemma_held_end(s4, n3);
        (n3, s4)
    };
    assert(held(dxvk_talk(profile, bundled, s3), n3) == (n4, s4));
    let (n5, s5) = if profile == Profile::Ultra {
        let nvidia = |s: Seq<StepView>| and_step(s, apply_nvidia_tweaks_talk(windows), "NVIDIA tweaks"@, last);
        let bar = |s: Seq<StepView>| and_step(s, disable_game_bar_talk(windows), "Game Bar disable"@, nvidia);
        let (further, recording) = (held(patch_ini_aggressive_talk(), n4), disable_game_bar_talk(windows));
        let a = lemma_and_step(s4, patch_ini_aggressive_talk(), "INI aggressive"@, bar, n4);
        let b = lemma_and_step(a, recording, "Game Bar disable"@, nvidia, further.0);
        let n6 = held(recording, further.0).0;
        let c = lemma_and_step(b, apply_nvidia_tweaks_talk(windows), "NVIDIA tweaks"@, last, n6);
        let n7 = held(apply_nvidia_tweaks_talk(windows), n6).0;
        lemma_held_end(c, n7);
        assert(c.len() == 7);
        assert(c[0] == s4[0] && c[1] == s4[1] && c[2] == s4[2] && c[3] == s4[3]);
        assert(c[4] == as_told(further.1, "INI aggressive"@));
        assert(c[5] == as_told(held(recording, further.0).1, "Game Bar disable"@));
        assert(c[6] == as_told(held(apply_nvidia_tweaks_talk(windows), n6).1, "NVIDIA tweaks"@));
        (n7, c)
    } else {
        lemma_held_end(s4, n4);
        (n4, s4)
    };
    assert(held(extras_talk(profile, windows, s4), n4) == (n5, s5));
    let end = |s: Seq<StepView>| Dialogue::<_, _, ReportView>::End(report(s));
    let extras = |s: Seq<StepView>| then_do(extras_talk(profile, windows, s), end);
    let dxvk = |s: Seq<StepView>| then_do(dxvk_talk(profile, bundled, s), extras);
    lemma_held_then(first, dxvk, m);
    lemma_held_then(dxvk_talk(profile, bundled, s3), extras, n3);
    lemma_held_then(extras_talk(profile, windows, s4), end, n4);
    lemma_held_end(report(s5), n5);
    let r = held(apply_profile_talk(profile, bundled, windows), m);
    assert(r == (n5, report(s5)));
    assert(r.1.steps == s5);
    assert(s5[0] == s1[0]);
    if profile == Profile::Maximum || profile == Profile::Ultra {
        assert(n3 == m3);
        assert(s4.len() == 4);
        assert(s5[1] == s3[1] && s5[2] == s3[2] && s5[3] == s4[3]);
    }
}

/// Undoing the settings is putting the settings files back, then the program, taking DXVK
/// away and turning the recording of games on again, one after the other and whatever became
/// of those before. Each is told as it came out.
pub proof fn law_undoing_is_its_steps(m: Machine, windows: bool)
    ensures
        ({
            let (after, r) = held(revert_all_talk(windows), m);
            let ini = held(revert_ini_files_talk(), m);
            let flag = held(revert_exe_laa_talk(), ini.0);
            let dxvk = held(uninstall_dxvk_talk(), flag.0);
            let bar = held(enable_game_bar_talk(windows), dxvk.0);
            &&& after == bar.0
            &&& r.steps == seq![
                as_told(ini.1, "INI revert"@),
                as_told(flag.1, "LAA revert"@),
                as_told(dxvk.1, "DXVK uninstall"@),
                as_told(bar.1, "Game Bar revert"@),
            ]
            &&& r.success <==> forall|i: int| 0 <= i < r.steps.len() ==> (#[trigger] r.steps[i]).ok
        }),
{
    let last = |s: Seq<StepView>| Dialogue::<_, _, Seq<StepView>>::End(s);
    let bar = |s: Seq<StepView>| and_step(s, enable_game_bar_talk(windows), "Game Bar revert"@, last);
    let dxvk = |s: Seq<StepView>| and_step(s, uninstall_dxvk_talk(), "DXVK uninstall"@, bar);
    let flag = |s: Seq<StepView>| and_step(s, revert_exe_laa_talk(), "LAA revert"@, dxvk);
    let empty = Seq::<StepView>::empty();
    let m1 = held(revert_ini_files_talk(), m).0;
    let m2 = held(revert_exe_laa_talk(), m1).0;
    let m3 = held(uninstall_dxvk_talk(), m2).0;
    let m4 = held(enable_game_bar_talk(windows), m3).0;
    let s1 = lemma_and_step(empty, revert_ini_files_talk(), "INI revert"@, flag, m);
    let s2 = lemma_and_step(s1, revert_exe_laa_talk(), "LAA revert"@, dxvk, m1);
    let s3 = lemma_and_step(s2, uninstall_dxvk_talk(), "DXVK uninstall"@, bar, m2);
    let s4 = lemma_and_step(s3, enable_game_bar_talk(windows), "Game Bar revert"@, last, m3);
    lemma_held_end(s4, m4);
    assert(s4 =~= seq![
        as_told(held(revert_ini_files_talk(), m).1, "INI revert"@),
        as_told(held(revert_exe_laa_talk(), m1).1, "LAA revert"@),
        as_told(held(uninstall_dxvk_talk(), m2).1, "DXVK uninstall"@),
        as_told(held(enable_game_bar_talk(windows), m3).1, "Game Bar revert"@),
    ]);
    let end = |s: Seq<StepView>| Dialogue::<_, _, ReportView>::End(report(s));
    let first = and_step(empty, revert_ini_files_talk(), "INI revert"@, flag);
    lemma_held_then(first, end, m);
    lemma_held_end(report(s4), m4);
}

} // verus!
