//! Which steps a profile takes.
use vstd::prelude::*;

use crate::dialogue::{follow, lemma_follow_then, then_do, Dialogue, Stage};
use crate::host::{ReplyView, RequestView, Talk};
use crate::optimizer::{
    and_step, apply_nvidia_tweaks_talk, apply_profile_talk, disable_game_bar_talk, dxvk_talk, enable_lfh_talk,
    entered, extras_talk, install_dxvk_talk, memory_talk, patch_exe_laa_talk, patch_ini_aggressive_talk,
    patch_ini_files_talk, report, Profile, ReportView,
};
use crate::step::{told, StepView};
use crate::text::Text;

verus! {

/// The names of steps.
pub open spec fn names(steps: Seq<StepView>) -> Seq<Text> {
    steps.map_values(|s: StepView| s.name)
}

/// The steps of a profile: the settings files alone; with large addresses and the
/// heap; with DXVK; and with all the rest.
pub open spec fn steps_of(profile: Profile) -> Seq<Text> {
    match profile {
        Profile::Safe => seq!["INI patches"@],
        Profile::Balanced => seq!["INI patches"@, "LAA patch"@, "LFH enable"@],
        Profile::Maximum => seq!["INI patches"@, "LAA patch"@, "LFH enable"@, "DXVK install"@],
        Profile::Ultra => seq![
            "INI patches"@,
            "LAA patch"@,
            "LFH enable"@,
            "DXVK install"@,
            "INI aggressive"@,
            "Game Bar disable"@,
            "NVIDIA tweaks"@,
        ],
    }
}

/// Whether a step that succeeds is told under this name, whatever is replied.
spec fn named(d: Talk<Result<StepView, Text>>, name: Text) -> bool {
    forall|h: Seq<ReplyView>, i: int|
        (#[trigger] follow(d, h, i)) matches Stage::Finished(Ok(s), _) ==> s.name == name
}

/// Whether the steps that come out are those of `before` and these behind, whatever
/// is replied.
spec fn adds(d: Talk<Seq<StepView>>, before: Seq<StepView>, behind: Seq<Text>) -> bool {
    forall|h: Seq<ReplyView>, i: int|
        (#[trigger] follow(d, h, i)) matches Stage::Finished(s, _) ==> names(s) == names(before) + behind
}

proof fn lemma_named_ini()
    ensures
        named(patch_ini_files_talk(), "INI patches"@),
        named(patch_ini_aggressive_talk(), "INI aggressive"@),
{
    broadcast use lemma_follow_then;

}

proof fn lemma_named_laa()
    ensures
        named(patch_exe_laa_talk(), "LAA patch"@),
{
    broadcast use lemma_follow_then;

}

proof fn lemma_named_dxvk()
    ensures
        named(install_dxvk_talk(), "DXVK install"@),
{
    broadcast use lemma_follow_then;

}

proof fn lemma_named_registry(windows: bool)
    ensures
        named(enable_lfh_talk(windows), "LFH enable"@),
        named(disable_game_bar_talk(windows), "Game Bar disable"@),
        named(apply_nvidia_tweaks_talk(windows), "NVIDIA tweaks"@),
{
    broadcast use lemma_follow_then;

}

/// A step and what comes behind it.
proof fn lemma_and_step(
    steps: Seq<StepView>,
    step: Talk<Result<StepView, Text>>,
    name: Text,
    rest: spec_fn(Seq<StepView>) -> Talk<Seq<StepView>>,
    behind: Seq<Text>,
)
    requires
        named(step, name),
        forall|s: Seq<StepView>| adds(#[trigger] rest(s), s, behind),
    ensures
        adds(and_step(steps, step, name, rest), steps, seq![name] + behind),
{
    let all = and_step(steps, step, name, rest);
    assert forall|h: Seq<ReplyView>, i: int|
        (#[trigger] follow(all, h, i)) matches Stage::Finished(s, _) ==> names(s) == names(steps) + (seq![name]
            + behind) by {
        lemma_follow_then(step, |r: Result<StepView, Text>| rest(steps.push(entered(r, name))), h, i);
        match follow(step, h, i) {
            Stage::Finished(r, j) => {
                let next = steps.push(entered(r, name));
                assert(entered(r, name).name == name);
                assert(names(next) =~= names(steps).push(name));
                assert(adds(rest(next), next, behind));
                match follow(rest(next), h, j) {
                    Stage::Finished(s, _) => {
                        assert(names(s) =~= names(steps) + (seq![name] + behind));
                    },
                    Stage::Waiting(_) => {},
                }
            },
            Stage::Waiting(_) => {},
        }
    }
}

proof fn lemma_end_adds(steps: Seq<StepView>)
    ensures
        adds(Dialogue::End(steps), steps, Seq::empty()),
{
    assert(names(steps) + Seq::<Text>::empty() =~= names(steps));
}

/// Whatever is replied, the report of a profile tells of the steps of that profile,
/// each once and in this order, whatever became of those before. It is a success
/// exactly where each of them is.
#[verifier::spinoff_prover]
#[verifier::rlimit(30)]
pub proof fn law_steps_of_profile(
    profile: Profile,
    bundled: bool,
    windows: bool,
    replies: Seq<ReplyView>,
    r: ReportView,
    used: int,
)
    requires
        follow(apply_profile_talk(profile, bundled, windows), replies, 0) == Stage::<
            RequestView,
            ReportView,
        >::Finished(r, used),
    ensures
        names(r.steps) == steps_of(profile),
        r.success == (forall|i: int| 0 <= i < r.steps.len() ==> (#[trigger] r.steps[i]).ok),
{
    let last = |s: Seq<StepView>| Dialogue::<_, _, Seq<StepView>>::End(s);
    let none = Seq::<Text>::empty();
    assert forall|s: Seq<StepView>| adds(#[trigger] last(s), s, none) by {
        lemma_end_adds(s);
    }
    lemma_named_ini();
    lemma_named_laa();
    lemma_named_dxvk();
    lemma_named_registry(windows);
    let empty = Seq::<StepView>::empty();
    assert(names(empty) =~= Seq::<Text>::empty());
    // Large addresses and the heap.
    let a = if profile == Profile::Safe { none } else { seq!["LAA patch"@, "LFH enable"@] };
    let memory = |s: Seq<StepView>| memory_talk(profile, windows, s);
    assert forall|s: Seq<StepView>| adds(#[trigger] memory(s), s, a) by {
        let lfh = |s: Seq<StepView>| and_step(s, enable_lfh_talk(windows), "LFH enable"@, last);
        assert forall|s: Seq<StepView>| adds(#[trigger] lfh(s), s, seq!["LFH enable"@]) by {
            lemma_and_step(s, enable_lfh_talk(windows), "LFH enable"@, last, none);
            assert(seq!["LFH enable"@] + none =~= seq!["LFH enable"@]);
        }
        lemma_and_step(s, patch_exe_laa_talk(), "LAA patch"@, lfh, seq!["LFH enable"@]);
        assert(seq!["LAA patch"@] + seq!["LFH enable"@] =~= seq!["LAA patch"@, "LFH enable"@]);
        lemma_end_adds(s);
    }
    lemma_and_step(empty, patch_ini_files_talk(), "INI patches"@, memory, a);
    // DXVK.
    let b = if profile == Profile::Safe || profile == Profile::Balanced {
        none
    } else {
        seq!["DXVK install"@]
    };
    assert forall|s: Seq<StepView>| adds(#[trigger] dxvk_talk(profile, bundled, s), s, b) by {
        lemma_and_step(s, install_dxvk_talk(), "DXVK install"@, last, none);
        assert(seq!["DXVK install"@] + none =~= seq!["DXVK install"@]);
        let missing = told("DXVK install"@, false, "bundled DXVK resources not provided"@);
        assert(names(s.push(missing)) =~= names(s) + seq!["DXVK install"@]);
        lemma_end_adds(s);
    }
    // The rest.
    let c = if profile == Profile::Ultra {
        seq!["INI aggressive"@, "Game Bar disable"@, "NVIDIA tweaks"@]
    } else {
        none
    };
    assert forall|s: Seq<StepView>| adds(#[trigger] extras_talk(profile, windows, s), s, c) by {
        let nvidia = |s: Seq<StepView>|
            and_step(s, apply_nvidia_tweaks_talk(windows), "NVIDIA tweaks"@, last);
        assert forall|s: Seq<StepView>| adds(#[trigger] nvidia(s), s, seq!["NVIDIA tweaks"@]) by {
            lemma_and_step(s, apply_nvidia_tweaks_talk(windows), "NVIDIA tweaks"@, last, none);
            assert(seq!["NVIDIA tweaks"@] + none =~= seq!["NVIDIA tweaks"@]);
        }
        let two = seq!["Game Bar disable"@, "NVIDIA tweaks"@];
        let bar = |s: Seq<StepView>| and_step(s, disable_game_bar_talk(windows), "Game Bar disable"@, nvidia);
        assert forall|s: Seq<StepView>| adds(#[trigger] bar(s), s, two) by {
            lemma_and_step(s, disable_game_bar_talk(windows), "Game Bar disable"@, nvidia, seq!["NVIDIA tweaks"@]);
            assert(seq!["Game Bar disable"@] + seq!["NVIDIA tweaks"@] =~= two);
        }
        lemma_and_step(s, patch_ini_aggressive_talk(), "INI aggressive"@, bar, two);
        assert(seq!["INI aggressive"@] + two =~= seq!["INI aggressive"@, "Game Bar disable"@, "NVIDIA tweaks"@]);
        lemma_end_adds(s);
    }
    assert(seq!["INI patches"@] + a + b + c =~= steps_of(profile));
    lemma_profile_stages(profile, bundled, windows, replies, r, used, a, b, c);
}

/// The stages of a profile, one after the other.
proof fn lemma_profile_stages(
    profile: Profile,
    bundled: bool,
    windows: bool,
    replies: Seq<ReplyView>,
    r: ReportView,
    used: int,
    a: Seq<Text>,
    b: Seq<Text>,
    c: Seq<Text>,
)
    requires
        follow(apply_profile_talk(profile, bundled, windows), replies, 0) == Stage::<
            RequestView,
            ReportView,
        >::Finished(r, used),
        adds(
            and_step(
                Seq::empty(),
                patch_ini_files_talk(),
                "INI patches"@,
                |s: Seq<StepView>| memory_talk(profile, windows, s),
            ),
            Seq::empty(),
            seq!["INI patches"@] + a,
        ),
        forall|s: Seq<StepView>| adds(#[trigger] dxvk_talk(profile, bundled, s), s, b),
        forall|s: Seq<StepView>| adds(#[trigger] extras_talk(profile, windows, s), s, c),
        seq!["INI patches"@] + a + b + c == steps_of(profile),
    ensures
        names(r.steps) == steps_of(profile),
        r == report(r.steps),
{
    let first = and_step(
        Seq::empty(),
        patch_ini_files_talk(),
        "INI patches"@,
        |s: Seq<StepView>| memory_talk(profile, windows, s),
    );
    let end = |s: Seq<StepView>| Dialogue::<_, _, ReportView>::End(report(s));
    let extras = |s: Seq<StepView>| then_do(extras_talk(profile, windows, s), end);
    let dxvk = |s: Seq<StepView>| then_do(dxvk_talk(profile, bundled, s), extras);
    lemma_follow_then(first, dxvk, replies, 0);
    assert(names(Seq::<StepView>::empty()) =~= Seq::<Text>::empty());
    if let Stage::Finished(s1, i1) = follow(first, replies, 0) {
        lemma_follow_then(dxvk_talk(profile, bundled, s1), extras, replies, i1);
        if let Stage::Finished(s2, i2) = follow(dxvk_talk(profile, bundled, s1), replies, i1) {
            lemma_follow_then(extras_talk(profile, windows, s2), end, replies, i2);
            if let Stage::Finished(s3, i3) = follow(extras_talk(profile, windows, s2), replies, i2) {
                assert(adds(dxvk_talk(profile, bundled, s1), s1, b));
                assert(adds(extras_talk(profile, windows, s2), s2, c));
                assert(names(s3) =~= seq!["INI patches"@] + a + b + c);
                assert(r == report(s3));
            }
        }
    }
}

/// The safe profile changes the settings files; the balanced one lets the game use more
/// memory besides; the next installs DXVK too; and the largest changes the further settings,
/// turns the recording of games off and has the driver favour speed. They come in this
/// order.
pub proof fn law_names_of_the_steps(
    profile: Profile,
    bundled: bool,
    windows: bool,
    replies: Seq<ReplyView>,
    r: ReportView,
    used: int,
)
    requires
        follow(apply_profile_talk(profile, bundled, windows), replies, 0) == Stage::<
            RequestView,
            ReportView,
        >::Finished(r, used),
    ensures
        r.steps.len() == (match profile {
            Profile::Safe => 1int,
            Profile::Balanced => 3,
            Profile::Maximum => 4,
            Profile::Ultra => 7,
        }),
        r.steps[0].name == "INI patches"@,
        profile != Profile::Safe ==> r.steps[1].name == "LAA patch"@ && r.steps[2].name == "LFH enable"@,
        profile == Profile::Maximum || profile == Profile::Ultra ==> r.steps[3].name == "DXVK install"@,
        profile == Profile::Ultra ==> {
            &&& r.steps[4].name == "INI aggressive"@
            &&& r.steps[5].name == "Game Bar disable"@
            &&& r.steps[6].name == "NVIDIA tweaks"@
        },
        r.success <==> forall|i: int| 0 <= i < r.steps.len() ==> (#[trigger] r.steps[i]).ok,
{
    law_steps_of_profile(profile, bundled, windows, replies, r, used);
    let n = names(r.steps);
    assert(n == steps_of(profile));
    assert(n.len() == r.steps.len());
    assert(steps_of(profile).len() == (match profile {
        Profile::Safe => 1int,
        Profile::Balanced => 3,
        Profile::Maximum => 4,
        Profile::Ultra => 7,
    }));
    assert(n[0] == r.steps[0].name);
    if profile != Profile::Safe {
        assert(n[1] == r.steps[1].name && n[2] == r.steps[2].name);
    }
    if profile == Profile::Maximum || profile == Profile::Ultra {
        assert(n[3] == r.steps[3].name);
    }
    if profile == Profile::Ultra {
        assert(n[4] == r.steps[4].name && n[5] == r.steps[5].name && n[6] == r.steps[6].name);
    }
}

} // verus!
