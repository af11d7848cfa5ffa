//! What the steps for Windows ask of the registry tool, and what they make of it.
use vstd::prelude::*;

use crate::dialogue::{follow, lemma_follow_then, lemma_sent_then, sent, Stage};
use crate::host::{output_in, ReplyView, RequestView};
use crate::ini::utf8_text;
use crate::number::dec;
use crate::optimizer::{
    apply_nvidia_tweaks_talk, barred, check_game_bar_disabled_talk, check_lfh_enabled_talk, check_nvidia_tweaks_talk,
    disable_game_bar_talk, enable_game_bar_talk, enable_lfh_talk, game_bar_off_values, game_bar_on_values,
    nvidia_values, set_values_talk, RegView,
};
use crate::step::StepView;
use crate::text::{holds, stands_at, trimmed, Text};

verus! {

/// A step that came to its end, after so many replies.
pub open spec fn stepped(r: Result<StepView, Text>, replies: int) -> Stage<RequestView, Result<StepView, Text>> {
    Stage::Finished(r, replies)
}

/// A question that was decided, after so many replies.
pub open spec fn decided(b: bool, replies: int) -> Stage<RequestView, bool> {
    Stage::Finished(b, replies)
}

/// Whether the tool did what it was told to.
pub open spec fn succeeded(a: ReplyView) -> bool {
    a matches ReplyView::Output { success, .. } && success
}

/// What to tell the tool to have a number set.
pub open spec fn set_number(key: Text, name: Text, data: Text) -> RequestView {
    RequestView::Registry(seq!["add"@, key, "/v"@, name, "/t"@, "REG_DWORD"@, "/d"@, data, "/f"@])
}

/// What to tell the tool to have a value shown.
pub open spec fn show_value(key: Text, name: Text) -> RequestView {
    RequestView::Registry(seq!["query"@, key, "/v"@, name])
}

/// How many of the replies from index `i` up to `n` are no success.
pub open spec fn failures(replies: Seq<ReplyView>, i: int, n: int) -> nat
    decreases n - i,
{
    if i >= n {
        0
    } else {
        (if succeeded(replies[i]) {
            0nat
        } else {
            1nat
        }) + failures(replies, i + 1, n)
    }
}

/// One value after the other is set, whatever became of those before, and what goes wrong
/// with one is told under its name.
proof fn lemma_values_are_set(values: Seq<RegView>, with_key: bool, i: int, errors: Seq<Text>, h: Seq<ReplyView>)
    requires
        0 <= i <= values.len() <= h.len(),
    ensures
        ({
            let talk = set_values_talk(values, with_key, i, errors);
            let asked = sent(talk, h, i);
            let n = values.len() as int;
            &&& asked.len() == n - i
            &&& forall|k: int|
                0 <= k < n - i ==> #[trigger] asked[k] == RequestView::Registry(values[i + k].add_args())
            &&& follow(talk, h, i) matches Stage::Finished(e, j) && {
                &&& j == n
                &&& e.len() == errors.len() + failures(h, i, n)
                &&& forall|k: int| 0 <= k < errors.len() ==> #[trigger] e[k] == errors[k]
                &&& forall|k: int|
                    i <= k < n && !succeeded(#[trigger] h[k]) ==> e.contains(
                        values[k].failure(with_key, output_in(h[k]))->0,
                    )
            }
        }),
    decreases values.len() - i,
{
    reveal_with_fuel(follow, 3);
    reveal_with_fuel(sent, 3);
    broadcast use {lemma_follow_then, lemma_sent_then};

    let n = values.len() as int;
    if i < n {
        let more = match values[i].failure(with_key, output_in(h[i])) {
            Some(e) => errors.push(e),
            None => errors,
        };
        lemma_values_are_set(values, with_key, i + 1, more, h);
        let talk = set_values_talk(values, with_key, i, errors);
        let rest = set_values_talk(values, with_key, i + 1, more);
        assert(follow(talk, h, i) == follow(rest, h, i + 1));
        assert(sent(talk, h, i) =~= seq![RequestView::Registry(values[i].add_args())] + sent(rest, h, i + 1));
        let e = follow(rest, h, i + 1)->Finished_0;
        assert forall|k: int| 0 <= k < errors.len() implies #[trigger] e[k] == errors[k] by {
            assert(e[k] == more[k]);
        }
        assert forall|k: int| i <= k < n && !succeeded(#[trigger] h[k]) implies e.contains(
            values[k].failure(with_key, output_in(h[k]))->0,
        ) by {
            if k == i {
                assert(e[errors.len() as int] == more[errors.len() as int]);
            }
        }
    }
}

/// What stands between bars stands in the text.
proof fn lemma_barred_holds(texts: Seq<Text>, t: Text)
    requires
        texts.contains(t),
    ensures
        holds(barred(texts), t),
    decreases texts.len(),
{
    let all = barred(texts);
    if texts.len() == 1 {
        assert(all.subrange(0, t.len() as int) =~= t);
        assert(stands_at(all, t, 0));
    } else if texts.len() > 1 {
        let head = barred(texts.drop_last()) + " | "@;
        assert(all == head + texts.last());
        if t == texts.last() {
            let i = head.len() as int;
            assert(all.subrange(i, i + t.len()) =~= t);
            assert(stands_at(all, t, i));
        } else {
            let k = choose|k: int| 0 <= k < texts.len() && texts[k] == t;
            assert(texts.drop_last()[k] == t);
            lemma_barred_holds(texts.drop_last(), t);
            let i = choose|i: int| stands_at(barred(texts.drop_last()), t, i);
            assert(all.subrange(i, i + t.len()) =~= barred(texts.drop_last()).subrange(i, i + t.len()));
            assert(stands_at(all, t, i));
        }
    }
}

/// What stands in a text stands in a longer one.
proof fn lemma_holds_behind(front: Text, s: Text, t: Text)
    requires
        holds(s, t),
    ensures
        holds(front + s, t),
{
    let i = choose|i: int| stands_at(s, t, i);
    let j = front.len() + i;
    assert((front + s).subrange(j, j + t.len()) =~= s.subrange(i, i + t.len()));
    assert(stands_at(front + s, t, j));
}

/// To turn the recording of games off five values are set to 0, whatever becomes of each. It
/// is a success where all are; otherwise it is told how many failed, and of each which and
/// why. Elsewhere than on Windows nothing is asked, and it is no success.
pub proof fn law_recording_is_turned_off(replies: Seq<ReplyView>, i: int)
    requires
        replies.len() >= 5,
        0 <= i < 5,
    ensures
        ({
            let asked = sent(disable_game_bar_talk(true), replies, 0);
            let bar = "HKCU\\SOFTWARE\\Microsoft\\GameBar"@;
            let values = game_bar_off_values();
            let fails = failures(replies, 0, 5);
            &&& asked == seq![
                set_number(bar, "AllowAutoGameMode"@, "0"@),
                set_number(bar, "AutoGameModeEnabled"@, "0"@),
                set_number("HKCU\\System\\GameConfigStore"@, "GameDVR_Enabled"@, "0"@),
                set_number("HKLM\\SOFTWARE\\Policies\\Microsoft\\Windows\\GameDVR"@, "AllowGameDVR"@, "0"@),
                set_number(
                    "HKLM\\SOFTWARE\\Microsoft\\PolicyManager\\default\\ApplicationManagement\\AllowGameDVR"@,
                    "value"@,
                    "0"@,
                ),
            ]
            &&& follow(disable_game_bar_talk(true), replies, 0) matches Stage::Finished(Ok(step), used) && {
                &&& used == 5
                &&& step.name == "Game Bar disable"@
                &&& step.ok <==> fails == 0
                &&& fails == 0 ==> step.detail == "all keys set"@
                &&& fails > 0 ==> (dec(fails) + " key(s) failed (admin?): "@).is_prefix_of(step.detail)
                &&& replies[i] matches ReplyView::Failed(e) ==> holds(
                    step.detail,
                    values[i].key + "\\"@ + values[i].name + ": "@ + e,
                )
                &&& replies[i] matches ReplyView::Output { success, stderr, .. } ==> !success ==> holds(
                    step.detail,
                    values[i].key + "\\"@ + values[i].name + ": "@ + trimmed(utf8_text(stderr)),
                )
            }
        }),
        sent(disable_game_bar_talk(false), replies, 0) == Seq::<RequestView>::empty(),
        follow(disable_game_bar_talk(false), replies, 0) == stepped(
            Ok(StepView { name: "Game Bar disable"@, ok: false, detail: "Windows only"@ }),
            0,
        ),
{
    broadcast use {lemma_follow_then, lemma_sent_then};

    let values = game_bar_off_values();
    lemma_values_are_set(values, true, 0, Seq::empty(), replies);
    let set = set_values_talk(values, true, 0, Seq::empty());
    let asked = sent(set, replies, 0);
    assert(sent(disable_game_bar_talk(true), replies, 0) =~= asked);
    assert(asked[0] == RequestView::Registry(values[0].add_args()));
    assert(asked[1] == RequestView::Registry(values[1].add_args()));
    assert(asked[2] == RequestView::Registry(values[2].add_args()));
    assert(asked[3] == RequestView::Registry(values[3].add_args()));
    assert(asked[4] == RequestView::Registry(values[4].add_args()));
    let e = follow(set, replies, 0)->Finished_0;
    let n = e.len();
    let head = dec(n) + " key(s) failed (admin?): "@;
    let step = (follow(disable_game_bar_talk(true), replies, 0)->Finished_0)->Ok_0;
    if n > 0 {
        assert(step.detail == head + barred(e));
        assert(head =~= step.detail.subrange(0, head.len() as int));
    }
    if !succeeded(replies[i]) {
        lemma_one_failed(replies, i, 0, 5);
        let t = values[i].failure(true, output_in(replies[i]))->0;
        lemma_barred_holds(e, t);
        lemma_holds_behind(head, barred(e), t);
    }
    assert(sent(disable_game_bar_talk(false), replies, 0) =~= Seq::<RequestView>::empty());
}

/// Where one reply is no success there is one at least.
proof fn lemma_one_failed(replies: Seq<ReplyView>, i: int, a: int, n: int)
    requires
        a <= i < n,
        !succeeded(replies[i]),
    ensures
        failures(replies, a, n) > 0,
    decreases n - a,
{
    if a < i {
        lemma_one_failed(replies, i, a + 1, n);
    }
}

/// To turn the recording of games on again three values are set to 1, and whatever becomes
/// of that it is a success. Elsewhere than on Windows nothing is asked, and it is none.
pub proof fn law_recording_is_turned_on(replies: Seq<ReplyView>)
    requires
        replies.len() >= 3,
    ensures
        sent(enable_game_bar_talk(true), replies, 0) == seq![
            set_number("HKCU\\SOFTWARE\\Microsoft\\GameBar"@, "AllowAutoGameMode"@, "1"@),
            set_number("HKCU\\SOFTWARE\\Microsoft\\GameBar"@, "AutoGameModeEnabled"@, "1"@),
            set_number("HKCU\\System\\GameConfigStore"@, "GameDVR_Enabled"@, "1"@),
        ],
        follow(enable_game_bar_talk(true), replies, 0) == stepped(
            Ok(StepView { name: "Game Bar revert"@, ok: true, detail: "defaults restored"@ }),
            3,
        ),
        sent(enable_game_bar_talk(false), replies, 0) == Seq::<RequestView>::empty(),
        follow(enable_game_bar_talk(false), replies, 0) == stepped(
            Ok(StepView { name: "Game Bar revert"@, ok: false, detail: "Windows only"@ }),
            0,
        ),
{
    broadcast use {lemma_follow_then, lemma_sent_then};

    let values = game_bar_on_values();
    lemma_values_are_set(values, true, 0, Seq::empty(), replies);
    let asked = sent(set_values_talk(values, true, 0, Seq::empty()), replies, 0);
    assert(sent(enable_game_bar_talk(true), replies, 0) =~= asked);
    assert(asked[0] == RequestView::Registry(values[0].add_args()));
    assert(asked[1] == RequestView::Registry(values[1].add_args()));
    assert(asked[2] == RequestView::Registry(values[2].add_args()));
    assert(sent(enable_game_bar_talk(false), replies, 0) =~= Seq::<RequestView>::empty());
}

/// To have the NVIDIA driver favour speed three values are set. It is a success where all
/// are; otherwise it is told how many failed, and of each which and why.
pub proof fn law_driver_favours_speed(replies: Seq<ReplyView>, i: int)
    requires
        replies.len() >= 3,
        0 <= i < 3,
    ensures
        ({
            let asked = sent(apply_nvidia_tweaks_talk(true), replies, 0);
            let values = nvidia_values();
            let fails = failures(replies, 0, 3);
            &&& asked == seq![
                set_number("HKCU\\Software\\NVIDIA Corporation\\Global\\NVTweak"@, "PowerMizerLevelAC"@, "1"@),
                set_number("HKCU\\Software\\NVIDIA Corporation\\Global\\FTS"@, "EnableRID66610"@, "1"@),
                set_number(
                    "HKLM\\SYSTEM\\CurrentControlSet\\Services\\nvlddmkm\\Global\\Startup"@,
                    "DisableShaderDiskCache"@,
                    "0"@,
                ),
            ]
            &&& follow(apply_nvidia_tweaks_talk(true), replies, 0) matches Stage::Finished(Ok(step), used) && {
                &&& used == 3
                &&& step.name == "NVIDIA tweaks"@
                &&& step.ok <==> fails == 0
                &&& fails == 0 ==> step.detail
                    == "registry hints applied — for full effect use NVIDIA Control Panel per-app or Inspector"@
                &&& fails > 0 ==> (dec(fails) + " key(s) failed (admin?): "@).is_prefix_of(step.detail)
                &&& replies[i] matches ReplyView::Failed(e) ==> holds(step.detail, values[i].name + ": "@ + e)
                &&& replies[i] matches ReplyView::Output { success, stderr, .. } ==> !success ==> holds(
                    step.detail,
                    values[i].name + ": "@ + trimmed(utf8_text(stderr)),
                )
            }
        }),
        sent(apply_nvidia_tweaks_talk(false), replies, 0) == Seq::<RequestView>::empty(),
        follow(apply_nvidia_tweaks_talk(false), replies, 0) == stepped(
            Ok(StepView { name: "NVIDIA tweaks"@, ok: false, detail: "Windows only"@ }),
            0,
        ),
{
    broadcast use {lemma_follow_then, lemma_sent_then};

    let values = nvidia_values();
    lemma_values_are_set(values, false, 0, Seq::empty(), replies);
    let set = set_values_talk(values, false, 0, Seq::empty());
    let asked = sent(set, replies, 0);
    assert(sent(apply_nvidia_tweaks_talk(true), replies, 0) =~= asked);
    assert(asked[0] == RequestView::Registry(values[0].add_args()));
    assert(asked[1] == RequestView::Registry(values[1].add_args()));
    assert(asked[2] == RequestView::Registry(values[2].add_args()));
    let e = follow(set, replies, 0)->Finished_0;
    let n = e.len();
    let head = dec(n) + " key(s) failed (admin?): "@;
    let step = (follow(apply_nvidia_tweaks_talk(true), replies, 0)->Finished_0)->Ok_0;
    if n > 0 {
        assert(step.detail == head + barred(e));
        assert(head =~= step.detail.subrange(0, head.len() as int));
    }
    if !succeeded(replies[i]) {
        lemma_one_failed(replies, i, 0, 3);
        let t = values[i].failure(false, output_in(replies[i]))->0;
        lemma_barred_holds(e, t);
        lemma_holds_behind(head, barred(e), t);
    }
    assert(sent(apply_nvidia_tweaks_talk(false), replies, 0) =~= Seq::<RequestView>::empty());
}

/// To give the game a heap that fragments less one value is set to 8. That the tool fails is
/// told, and so is that it cannot be run.
pub proof fn law_heap_is_set(replies: Seq<ReplyView>, stdout: Seq<u8>, stderr: Seq<u8>, e: Text)
    requires
        replies.len() >= 1,
    ensures
        ({
            let end = follow(enable_lfh_talk(true), replies, 0);
            &&& sent(enable_lfh_talk(true), replies, 0) == seq![
                set_number(
                    "HKLM\\SOFTWARE\\Microsoft\\Windows NT\\CurrentVersion\\Image File Execution Options\\TERA.exe"@,
                    "FrontEndHeapDebugOptions"@,
                    "8"@,
                ),
            ]
            &&& replies[0] == (ReplyView::Output { success: true, stdout, stderr }) ==> end == stepped(
                Ok(StepView { name: "LFH enable"@, ok: true, detail: "registry key set"@ }),
                1,
            )
            &&& replies[0] == (ReplyView::Output { success: false, stdout, stderr }) ==> end == stepped(
                Ok(
                    StepView {
                        name: "LFH enable"@,
                        ok: false,
                        detail: "reg.exe failed (admin required?): "@ + trimmed(utf8_text(stderr)),
                    },
                ),
                1,
            )
            &&& replies[0] == ReplyView::Failed(e) ==> end == stepped(Err("reg.exe: "@ + e), 1)
        }),
        sent(enable_lfh_talk(false), replies, 0) == Seq::<RequestView>::empty(),
        follow(enable_lfh_talk(false), replies, 0) == stepped(
            Ok(StepView { name: "LFH enable"@, ok: false, detail: "Windows only"@ }),
            0,
        ),
{
    broadcast use {lemma_follow_then, lemma_sent_then};

    reveal_with_fuel(follow, 3);
    reveal_with_fuel(sent, 3);
    assert(sent(enable_lfh_talk(true), replies, 0) =~= seq![
        set_number(
            "HKLM\\SOFTWARE\\Microsoft\\Windows NT\\CurrentVersion\\Image File Execution Options\\TERA.exe"@,
            "FrontEndHeapDebugOptions"@,
            "8"@,
        ),
    ]);
    assert(sent(enable_lfh_talk(false), replies, 0) =~= Seq::<RequestView>::empty());
}

/// Whether these values are set is asked of the tool, one value each, and seen in what it
/// writes. Where it cannot be run, and elsewhere than on Windows, they are not.
pub proof fn law_values_are_looked_up(replies: Seq<ReplyView>, success: bool, stdout: Seq<u8>, stderr: Seq<u8>)
    requires
        replies.len() >= 1,
    ensures
        ({
            let shown = replies[0] == (ReplyView::Output { success, stdout, stderr });
            let s = utf8_text(stdout);
            let heap = check_lfh_enabled_talk(true);
            let bar = check_game_bar_disabled_talk(true);
            let driver = check_nvidia_tweaks_talk(true);
            &&& sent(heap, replies, 0) == seq![
                show_value(
                    "HKLM\\SOFTWARE\\Microsoft\\Windows NT\\CurrentVersion\\Image File Execution Options\\TERA.exe"@,
                    "FrontEndHeapDebugOptions"@,
                ),
            ]
            &&& sent(bar, replies, 0) == seq![show_value("HKCU\\System\\GameConfigStore"@, "GameDVR_Enabled"@)]
            &&& sent(driver, replies, 0) == seq![
                show_value("HKCU\\Software\\NVIDIA Corporation\\Global\\NVTweak"@, "PowerMizerLevelAC"@),
            ]
            &&& shown ==> follow(heap, replies, 0) == decided(
                holds(s, "FrontEndHeapDebugOptions"@) && holds(s, "0x8"@),
                1,
            )
            &&& shown ==> follow(bar, replies, 0) == decided(holds(s, "0x0"@), 1)
            &&& shown ==> follow(driver, replies, 0) == decided(holds(s, "PowerMizerLevelAC"@), 1)
            &&& !(replies[0] is Output) ==> {
                &&& follow(heap, replies, 0) == decided(false, 1)
                &&& follow(bar, replies, 0) == decided(false, 1)
                &&& follow(driver, replies, 0) == decided(false, 1)
            }
        }),
        follow(check_lfh_enabled_talk(false), replies, 0) == decided(false, 0),
        follow(check_game_bar_disabled_talk(false), replies, 0) == decided(false, 0),
        follow(check_nvidia_tweaks_talk(false), replies, 0) == decided(false, 0),
{
    broadcast use {lemma_follow_then, lemma_sent_then};

    reveal_with_fuel(follow, 3);
    reveal_with_fuel(sent, 3);
    let heap = check_lfh_enabled_talk(true);
    let bar = check_game_bar_disabled_talk(true);
    let driver = check_nvidia_tweaks_talk(true);
    assert(sent(heap, replies, 0) =~= seq![
        show_value(
            "HKLM\\SOFTWARE\\Microsoft\\Windows NT\\CurrentVersion\\Image File Execution Options\\TERA.exe"@,
            "FrontEndHeapDebugOptions"@,
        ),
    ]);
    assert(sent(bar, replies, 0) =~= seq![show_value("HKCU\\System\\GameConfigStore"@, "GameDVR_Enabled"@)]);
    assert(sent(driver, replies, 0) =~= seq![
        show_value("HKCU\\Software\\NVIDIA Corporation\\Global\\NVTweak"@, "PowerMizerLevelAC"@),
    ]);
}

} // verus!
