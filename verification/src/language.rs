//! The language of the game's texts: English, or the Spanish that comes with the
//! launcher. A mark beside the texts says that they are the Spanish ones.
use vstd::prelude::*;
use vstd::utf8::encode_utf8;

use crate::dialogue::{
    if_ok, labelled, lemma_follow_then, meets, opt, then_do, Dialogue, Step, Tape,
};
use crate::host::{
    ask_done, ask_flag, ask_size, ask_text, done_of, flag_of, shown_text_of, size_of, unit_view,
    Replies, Reply, Request, RequestView, Talk,
};
use crate::machine::{group_held, held, Machine};
use crate::number::{dec, decimal};
use crate::place::{at, spec_at, Location, Place};
use crate::step::{step_view, tell, told, StepResult, StepView};
use crate::text::{join, Text};

verus! {

/// Which texts are installed.
pub struct LanguageStatus {
    /// "english", "spanish" or "unknown".
    pub current: String,
    /// Whether the Spanish texts come with the launcher.
    pub spanish_available: bool,
    /// Whether the English texts are kept.
    pub english_backup_exists: bool,
    /// Where the game's texts are.
    pub dat_path: String,
    /// How many bytes they have; 0 where there are none.
    pub dat_size: u64,
}

/// [`LanguageStatus`] in the model.
pub struct LanguageStatusView {
    pub current: Text,
    pub spanish_available: bool,
    pub english_backup_exists: bool,
    pub dat_path: Text,
    pub dat_size: u64,
}

impl View for LanguageStatus {
    type V = LanguageStatusView;

    open spec fn view(&self) -> LanguageStatusView {
        LanguageStatusView {
            current: self.current@,
            spanish_available: self.spanish_available,
            english_backup_exists: self.english_backup_exists,
            dat_path: self.dat_path@,
            dat_size: self.dat_size,
        }
    }
}

/// The game's texts.
pub open spec fn dat() -> Location {
    spec_at(Place::DataCenter)
}

/// The English texts that are kept.
pub open spec fn english() -> Location {
    spec_at(Place::EnglishBackup)
}

/// The mark of the Spanish texts.
pub open spec fn sentinel() -> Location {
    spec_at(Place::SpanishSentinel)
}

/// The Spanish texts that come with the launcher.
pub open spec fn spanish() -> Location {
    spec_at(Place::SpanishSource)
}

/// The game's texts.
fn dat_path() -> (l: Location)
    ensures
        l == dat(),
{
    at(Place::DataCenter)
}

/// The English texts that are kept.
fn backup_path() -> (l: Location)
    ensures
        l == english(),
{
    at(Place::EnglishBackup)
}

/// The mark of the Spanish texts.
fn sentinel_path() -> (l: Location)
    ensures
        l == sentinel(),
{
    at(Place::SpanishSentinel)
}

/// The size of a file; 0 where there is none.
pub open spec fn size_or_zero_talk(l: Location) -> Talk<u64> {
    then_do(
        size_of(RequestView::Size(l)),
        |r: Result<u64, Text>|
            Dialogue::End(
                match r {
                    Ok(n) => n,
                    Err(_) => 0,
                },
            ),
    )
}

fn size_or_zero(t: &mut Replies, l: Location) -> (r: Option<u64>)
    requires
        old(t).wf(),
    ensures
        final(t).reached(old(t), size_or_zero_talk(l), r),
{
    broadcast use lemma_follow_then;

    match ask_size(t, Request::Size(l))? {
        Ok(n) => Some(n),
        Err(_) => Some(0),
    }
}

/// The language of the texts: Spanish where the mark says so, English elsewhere,
/// and unknown where there are no texts.
pub open spec fn current_talk() -> Talk<Text> {
    then_do(
        flag_of(RequestView::Exists(dat())),
        |there: bool|
            if there {
                then_do(
                    flag_of(RequestView::Exists(sentinel())),
                    |marked: bool|
                        Dialogue::End(
                            if marked {
                                "spanish"@
                            } else {
                                "english"@
                            },
                        ),
                )
            } else {
                Dialogue::End("unknown"@)
            },
    )
}

fn current(t: &mut Replies) -> (r: Option<String>)
    requires
        old(t).wf(),
    ensures
        final(t).reached(old(t), current_talk(), opt(r, |s: String| s@)),
{
    broadcast use lemma_follow_then;

    if !ask_flag(t, Request::Exists(dat_path()))? {
        return Some("unknown".to_owned());
    }
    if ask_flag(t, Request::Exists(sentinel_path()))? {
        Some("spanish".to_owned())
    } else {
        Some("english".to_owned())
    }
}

/// Which texts are installed. `bundled` says whether there is a place where the
/// Spanish texts may come with the launcher.
pub open spec fn get_status_talk(bundled: bool) -> Talk<LanguageStatusView> {
    then_do(
        size_or_zero_talk(dat()),
        |dat_size: u64|
            then_do(
                flag_of(RequestView::Exists(english())),
                |english_backup_exists: bool|
                    then_do(
                        if bundled {
                            flag_of(RequestView::Exists(spanish()))
                        } else {
                            Dialogue::End(false)
                        },
                        |spanish_available: bool|
                            then_do(
                                current_talk(),
                                |current: Text|
                                    then_do(
                                        shown_text_of(RequestView::Shown(dat())),
                                        |dat_path: Text|
                                            Dialogue::End(
                                                LanguageStatusView {
                                                    current,
                                                    spanish_available,
                                                    english_backup_exists,
                                                    dat_path,
                                                    dat_size,
                                                },
                                            ),
                                    ),
                            ),
                    ),
            ),
    )
}

fn do_get_status(t: &mut Replies, bundled: bool) -> (r: Option<LanguageStatus>)
    requires
        old(t).wf(),
    ensures
        final(t).reached(old(t), get_status_talk(bundled), opt(r, |v: LanguageStatus| v@)),
{
    broadcast use lemma_follow_then;

    let dat_size: u64 = size_or_zero(t, dat_path())?;
    let english_backup_exists = ask_flag(t, Request::Exists(backup_path()))?;
    let spanish_available = if bundled {
        ask_flag(t, Request::Exists(at(Place::SpanishSource)))?
    } else {
        false
    };
    let current = current(t)?;
    let dat_path = ask_text(t, Request::Shown(dat_path()))?;
    Some(LanguageStatus { current, spanish_available, english_backup_exists, dat_path, dat_size })
}

/// Tells which texts are installed. `bundled` says whether there is a place where
/// the Spanish texts may come with the launcher.
pub fn get_status(bundled: bool, replies: &Vec<Reply>) -> (r: Step<Request, LanguageStatus>)
    ensures
        meets(r, |v: LanguageStatus| v@, get_status_talk(bundled), replies@),
{
    let mut t = Tape::new(replies);
    let r = do_get_status(&mut t, bundled);
    t.finish(r)
}

/// Keeps the English texts, once, and never the Spanish ones.
pub open spec fn keep_english_talk() -> Talk<Result<(), Text>> {
    then_do(
        flag_of(RequestView::Exists(english())),
        |kept: bool|
            if kept {
                Dialogue::End(Ok(()))
            } else {
                then_do(
                    flag_of(RequestView::Exists(sentinel())),
                    |marked: bool|
                        if marked {
                            Dialogue::End(Ok(()))
                        } else {
                            then_do(
                                flag_of(RequestView::Exists(dat())),
                                |there: bool|
                                    if there {
                                        then_do(
                                            done_of(RequestView::CopyFile(dat(), english())),
                                            |r: Result<(), Text>|
                                                Dialogue::End(labelled(r, "Backup failed: "@)),
                                        )
                                    } else {
                                        Dialogue::End(Ok(()))
                                    },
                            )
                        },
                )
            },
    )
}

fn keep_english(t: &mut Replies) -> (r: Option<Result<(), String>>)
    requires
        old(t).wf(),
    ensures
        final(t).reached(old(t), keep_english_talk(), opt(r, |v| unit_view(v))),
{
    broadcast use lemma_follow_then;

    if ask_flag(t, Request::Exists(backup_path()))? {
        return Some(Ok(()));
    }
    if ask_flag(t, Request::Exists(sentinel_path()))? {
        return Some(Ok(()));
    }
    if !ask_flag(t, Request::Exists(dat_path()))? {
        return Some(Ok(()));
    }
    match ask_done(t, Request::CopyFile(dat_path(), backup_path()))? {
        Ok(()) => Some(Ok(())),
        Err(e) => Some(Err(join("Backup failed: ", &e))),
    }
}

/// The end of a switch: the texts and how many bytes they have.
pub open spec fn switched_talk(name: Text, what: Text) -> Talk<Result<StepView, Text>> {
    then_do(
        size_or_zero_talk(dat()),
        |n: u64| Dialogue::End(Ok(told(name, true, what + " ("@ + dec(n as nat) + " bytes)"@))),
    )
}

fn switched(t: &mut Replies, name: &str, what: &str) -> (r: Option<Result<StepResult, String>>)
    requires
        old(t).wf(),
    ensures
        final(t).reached(old(t), switched_talk(name@, what@), opt(r, |v| step_view(v))),
{
    broadcast use lemma_follow_then;

    let n: u64 = size_or_zero(t, dat_path())?;
    let mut detail = join(what, " (");
    detail.append(&decimal(n));
    detail.append(" bytes)");
    Some(Ok(tell(name, true, &detail)))
}

/// Keeps the English texts, installs the Spanish ones and leaves the mark.
pub open spec fn install_spanish_talk() -> Talk<Result<StepView, Text>> {
    if_ok(
        keep_english_talk(),
        |u: ()|
            if_ok(
                then_do(
                    done_of(RequestView::CopyFile(spanish(), dat())),
                    |r: Result<(), Text>| Dialogue::End(labelled(r, "Copy Spanish failed: "@)),
                ),
                |u: ()|
                    if_ok(
                        then_do(
                            done_of(RequestView::Write(sentinel(), encode_utf8("spanish"@))),
                            |r: Result<(), Text>| Dialogue::End(labelled(r, "Sentinel write failed: "@)),
                        ),
                        |u: ()| switched_talk("Switch to Spanish"@, "Installed Spanish DataCenter"@),
                    ),
            ),
    )
}

fn install_spanish(t: &mut Replies) -> (r: Option<Result<StepResult, String>>)
    requires
        old(t).wf(),
    ensures
        final(t).reached(old(t), install_spanish_talk(), opt(r, |v| step_view(v))),
{
    broadcast use lemma_follow_then;

    if let Err(e) = keep_english(t)? {
        return Some(Err(e));
    }
    if let Err(e) = ask_done(t, Request::CopyFile(at(Place::SpanishSource), dat_path()))? {
        return Some(Err(join("Copy Spanish failed: ", &e)));
    }
    if let Err(e) = ask_done(t, Request::Write(sentinel_path(), "spanish".as_bytes_vec()))? {
        return Some(Err(join("Sentinel write failed: ", &e)));
    }
    switched(t, "Switch to Spanish", "Installed Spanish DataCenter")
}

/// A switch to Spanish that cannot be made, and a path that shows why.
pub open spec fn no_spanish_talk(l: Location, cause: Text) -> Talk<Result<StepView, Text>> {
    then_do(
        shown_text_of(RequestView::Shown(l)),
        |path: Text| Dialogue::End(Ok(told("Switch to Spanish"@, false, cause + path))),
    )
}

/// Switches to Spanish: on the first switch the English texts are kept.
pub open spec fn switch_to_spanish_talk() -> Talk<Result<StepView, Text>> {
    then_do(
        flag_of(RequestView::Exists(spanish())),
        |bundled: bool|
            if bundled {
                then_do(
                    flag_of(RequestView::Exists(spec_at(Place::S1Data))),
                    |folder: bool|
                        if folder {
                            install_spanish_talk()
                        } else {
                            no_spanish_talk(dat(), "S1Data folder not found near: "@)
                        },
                )
            } else {
                no_spanish_talk(spanish(), "Bundled Spanish file not found at: "@)
            },
    )
}

fn do_switch_to_spanish(t: &mut Replies) -> (r: Option<Result<StepResult, String>>)
    requires
        old(t).wf(),
    ensures
        final(t).reached(old(t), switch_to_spanish_talk(), opt(r, |v| step_view(v))),
{
    broadcast use lemma_follow_then;

    let source = at(Place::SpanishSource);
    if !ask_flag(t, Request::Exists(source))? {
        let path = ask_text(t, Request::Shown(source))?;
        let detail = join("Bundled Spanish file not found at: ", &path);
        return Some(Ok(tell("Switch to Spanish", false, &detail)));
    }
    if !ask_flag(t, Request::Exists(at(Place::S1Data)))? {
        let path = ask_text(t, Request::Shown(dat_path()))?;
        let detail = join("S1Data folder not found near: ", &path);
        return Some(Ok(tell("Switch to Spanish", false, &detail)));
    }
    install_spanish(t)
}

/// Switches to Spanish: on the first switch the English texts are kept.
pub fn switch_to_spanish(replies: &Vec<Reply>) -> (r: Step<Request, Result<StepResult, String>>)
    ensures
        meets(r, |v: Result<StepResult, String>| step_view(v), switch_to_spanish_talk(), replies@),
{
    let mut t = Tape::new(replies);
    let r = do_switch_to_spanish(&mut t);
    t.finish(r)
}

/// Takes the mark of the Spanish texts away, where it is there and can be.
pub open spec fn unmark_talk() -> Talk<()> {
    then_do(
        flag_of(RequestView::Exists(sentinel())),
        |marked: bool|
            if marked {
                then_do(
                    done_of(RequestView::Remove(sentinel())),
                    |r: Result<(), Text>| Dialogue::End(()),
                )
            } else {
                Dialogue::End(())
            },
    )
}

fn unmark(t: &mut Replies) -> (r: Option<()>)
    requires
        old(t).wf(),
    ensures
        final(t).reached(old(t), unmark_talk(), r),
{
    broadcast use lemma_follow_then;

    if ask_flag(t, Request::Exists(sentinel_path()))? {
        let _ = ask_done(t, Request::Remove(sentinel_path()))?;
    }
    Some(())
}

/// Switches back to the English texts that were kept.
pub open spec fn switch_to_english_talk() -> Talk<Result<StepView, Text>> {
    then_do(
        flag_of(RequestView::Exists(english())),
        |kept: bool|
            if kept {
                if_ok(
                    then_do(
                        done_of(RequestView::CopyFile(english(), dat())),
                        |r: Result<(), Text>| Dialogue::End(labelled(r, "Restore failed: "@)),
                    ),
                    |u: ()|
                        then_do(
                            unmark_talk(),
                            |u: ()| switched_talk("Switch to English"@, "Restored English DataCenter"@),
                        ),
                )
            } else {
                then_do(
                    unmark_talk(),
                    |u: ()|
                        Dialogue::End(
                            Ok(told("Switch to English"@, true, "Already English (no backup found)"@)),
                        ),
                )
            },
    )
}

fn do_switch_to_english(t: &mut Replies) -> (r: Option<Result<StepResult, String>>)
    requires
        old(t).wf(),
    ensures
        final(t).reached(old(t), switch_to_english_talk(), opt(r, |v| step_view(v))),
{
    broadcast use lemma_follow_then;

    if !ask_flag(t, Request::Exists(backup_path()))? {
        unmark(t)?;
        return Some(Ok(tell("Switch to English", true, "Already English (no backup found)")));
    }
    if let Err(e) = ask_done(t, Request::CopyFile(backup_path(), dat_path()))? {
        return Some(Err(join("Restore failed: ", &e)));
    }
    unmark(t)?;
    switched(t, "Switch to English", "Restored English DataCenter")
}

/// Switches back to the English texts that were kept.
pub fn switch_to_english(replies: &Vec<Reply>) -> (r: Step<Request, Result<StepResult, String>>)
    ensures
        meets(r, |v: Result<StepResult, String>| step_view(v), switch_to_english_talk(), replies@),
{
    let mut t = Tape::new(replies);
    let r = do_switch_to_english(&mut t);
    t.finish(r)
}

/// Whether the English texts `first` are not lost: they are kept, or nothing was
/// switched yet and they are the game's texts.
pub open spec fn english_is_safe(m: Machine, first: Seq<u8>) -> bool {
    if m.has(english()) {
        m.files[english()] == first
    } else {
        !m.has(sentinel()) && m.has(dat()) && m.files[dat()] == first
    }
}

/// What keeping the English texts comes to.
proof fn lemma_keep_english(m: Machine)
    requires
        m.wf(),
    ensures
        ({
            let (after, r) = held(keep_english_talk(), m);
            if m.has(english()) || m.has(sentinel()) || !m.has(dat()) {
                after == m && r is Ok
            } else if r is Ok {
                after == m.with(english(), m.files[dat()])
            } else {
                after == m && (m.refuses)(RequestView::CopyFile(dat(), english()))
            }
        }),
{
    broadcast use group_held;

}

/// The English texts are never lost: whatever is switched and whatever fails on the
/// way, they are kept, or are still the game's texts. Once kept they stay as they
/// are.
pub proof fn law_english_is_never_lost(m: Machine, first: Seq<u8>)
    requires
        m.wf(),
        english_is_safe(m, first),
    ensures
        english_is_safe(held(switch_to_spanish_talk(), m).0, first),
        english_is_safe(held(switch_to_english_talk(), m).0, first),
        m.has(english()) ==> held(switch_to_spanish_talk(), m).0.has(english()),
        m.has(english()) ==> held(switch_to_english_talk(), m).0.has(english()),
{
    broadcast use group_held;

    lemma_keep_english(m);
}

/// Switching to English brings the English texts back, on a machine that refuses
/// nothing, and no mark is left.
pub proof fn law_english_comes_back(m: Machine, first: Seq<u8>)
    requires
        m.wf(),
        m.willing(),
        english_is_safe(m, first),
    ensures
        ({
            let (after, r) = held(switch_to_english_talk(), m);
            &&& r is Ok && r->Ok_0.ok
            &&& after.has(dat()) && after.files[dat()] == first
            &&& !after.has(sentinel())
            &&& held(current_talk(), after).1 == "english"@
        }),
{
    broadcast use group_held;

}

/// Switching to Spanish installs the Spanish texts, on a machine that refuses
/// nothing and has all that it takes.
pub proof fn law_spanish_is_installed(m: Machine)
    requires
        m.wf(),
        m.willing(),
        m.has(spanish()),
        m.folders.contains(Place::S1Data),
    ensures
        ({
            let (after, r) = held(switch_to_spanish_talk(), m);
            &&& r is Ok && r->Ok_0.ok
            &&& after.has(dat()) && after.files[dat()] == m.files[spanish()]
            &&& held(current_talk(), after).1 == "spanish"@
        }),
{
    broadcast use group_held;

    lemma_keep_english(m);
}

/// Switching to Spanish and back leaves the game's texts as they were.
pub proof fn law_switch_and_back(m: Machine)
    requires
        m.wf(),
        m.willing(),
        m.has(spanish()),
        m.folders.contains(Place::S1Data),
        m.has(dat()),
        !m.has(sentinel()),
        !m.has(english()),
    ensures
        ({
            let there = held(switch_to_spanish_talk(), m).0;
            let back = held(switch_to_english_talk(), there).0;
            back.has(dat()) && back.files[dat()] == m.files[dat()]
        }),
{
    let there = held(switch_to_spanish_talk(), m).0;
    law_english_is_never_lost(m, m.files[dat()]);
    assert(there.wf() && there.willing()) by {
        broadcast use group_held;

        lemma_keep_english(m);
    }
    law_english_comes_back(there, m.files[dat()]);
}

/// Asking for the state changes nothing.
pub proof fn law_status_changes_nothing(m: Machine, bundled: bool)
    ensures
        held(get_status_talk(bundled), m).0 == m,
{
    broadcast use group_held;

}

/// The texts are Spanish where the mark stands beside them, English where it does not, and
/// unknown where there are none. The state tells that, how many bytes the texts have, where
/// they are, whether the English ones are kept, and whether the Spanish ones are there to be
/// installed.
pub proof fn law_what_is_installed(m: Machine, bundled: bool)
    requires
        m.wf(),
        m.willing(),
        m.has(spec_at(Place::DataCenter)) ==> m.files[spec_at(Place::DataCenter)].len() <= u64::MAX,
    ensures
        ({
            let state = held(get_status_talk(bundled), m).1;
            let texts = spec_at(Place::DataCenter);
            let mark = spec_at(Place::SpanishSentinel);
            &&& m.has(texts) && m.has(mark) ==> state.current == "spanish"@
            &&& m.has(texts) && !m.has(mark) ==> state.current == "english"@
            &&& !m.has(texts) ==> state.current == "unknown"@
            &&& state.dat_size == (if m.has(texts) { m.files[texts].len() as int } else { 0 })
            &&& state.dat_path == (m.paths)(texts)
            &&& state.english_backup_exists == m.has(spec_at(Place::EnglishBackup))
            &&& state.spanish_available <==> bundled && m.has(spec_at(Place::SpanishSource))
        }),
{
    broadcast use group_held;

}

/// Switching to Spanish keeps the texts that are there as the English ones, unless some are
/// kept or the mark says that they are Spanish, puts the Spanish texts in their place and
/// leaves the mark. No other file changes, and it is told how many bytes the texts have.
pub proof fn law_what_switching_to_spanish_does(m: Machine, l: Location)
    requires
        m.wf(),
        m.willing(),
        m.has(spec_at(Place::SpanishSource)),
        m.folders.contains(Place::S1Data),
        m.files[spec_at(Place::SpanishSource)].len() <= u64::MAX,
    ensures
        ({
            let (after, r) = held(switch_to_spanish_talk(), m);
            let texts = spec_at(Place::DataCenter);
            let kept = spec_at(Place::EnglishBackup);
            let mark = spec_at(Place::SpanishSentinel);
            let b = m.files[spec_at(Place::SpanishSource)];
            let keep = m.has(texts) && !m.has(mark) && !m.has(kept);
            &&& after.has(texts) && after.files[texts] == b
            &&& after.has(mark) && after.files[mark] == encode_utf8("spanish"@)
            &&& keep ==> after.has(kept) && after.files[kept] == m.files[texts]
            &&& !keep ==> after.has(kept) == m.has(kept) && (m.has(kept) ==> after.files[kept] == m.files[kept])
            &&& l != texts && l != kept && l != mark ==> after.has(l) == m.has(l) && (m.has(l) ==> after.files[l]
                == m.files[l])
            &&& r == Ok::<StepView, Text>(
                StepView {
                    name: "Switch to Spanish"@,
                    ok: true,
                    detail: "Installed Spanish DataCenter ("@ + dec(b.len()) + " bytes)"@,
                },
            )
        }),
{
    broadcast use group_held;

    reveal_strlit("Installed Spanish DataCenter");
    reveal_strlit(" (");
    reveal_strlit("Installed Spanish DataCenter (");
    assert("Installed Spanish DataCenter"@ + " ("@ =~= "Installed Spanish DataCenter ("@);
    let kept = held(keep_english_talk(), m);
    assert(kept.1 is Ok);
}

/// Without the Spanish texts, or without the folder that they belong in, nothing is switched,
/// and it is told what is missing.
pub proof fn law_what_switching_to_spanish_needs(m: Machine)
    requires
        m.wf(),
    ensures
        ({
            let source = spec_at(Place::SpanishSource);
            let (after, r) = held(switch_to_spanish_talk(), m);
            &&& !m.has(source) ==> after == m && r == Ok::<StepView, Text>(
                StepView {
                    name: "Switch to Spanish"@,
                    ok: false,
                    detail: "Bundled Spanish file not found at: "@ + (m.paths)(source),
                },
            )
            &&& m.has(source) && !m.folders.contains(Place::S1Data) && !m.has(spec_at(Place::S1Data)) ==> after == m && r
                == Ok::<StepView, Text>(
                StepView {
                    name: "Switch to Spanish"@,
                    ok: false,
                    detail: "S1Data folder not found near: "@ + (m.paths)(spec_at(Place::DataCenter)),
                },
            )
        }),
{
    broadcast use group_held;

}

/// Switching to English puts the English texts that are kept in place and takes the mark
/// away; where none are kept only the mark goes. No other file changes.
pub proof fn law_what_switching_to_english_does(m: Machine, l: Location)
    requires
        m.wf(),
        m.willing(),
        m.has(spec_at(Place::EnglishBackup)) ==> m.files[spec_at(Place::EnglishBackup)].len() <= u64::MAX,
    ensures
        ({
            let (after, r) = held(switch_to_english_talk(), m);
            let texts = spec_at(Place::DataCenter);
            let kept = spec_at(Place::EnglishBackup);
            let mark = spec_at(Place::SpanishSentinel);
            &&& !after.has(mark)
            &&& m.has(kept) ==> {
                &&& after.has(texts) && after.files[texts] == m.files[kept]
                &&& r == Ok::<StepView, Text>(
                    StepView {
                        name: "Switch to English"@,
                        ok: true,
                        detail: "Restored English DataCenter ("@ + dec(m.files[kept].len()) + " bytes)"@,
                    },
                )
            }
            &&& !m.has(kept) ==> {
                &&& after.has(texts) == m.has(texts) && (m.has(texts) ==> after.files[texts] == m.files[texts])
                &&& r == Ok::<StepView, Text>(
                    StepView {
                        name: "Switch to English"@,
                        ok: true,
                        detail: "Already English (no backup found)"@,
                    },
                )
            }
            &&& l != texts && l != mark ==> after.has(l) == m.has(l) && (m.has(l) ==> after.files[l] == m.files[l])
        }),
{
    broadcast use group_held;

    reveal_strlit("Restored English DataCenter");
    reveal_strlit(" (");
    reveal_strlit("Restored English DataCenter (");
    assert("Restored English DataCenter"@ + " ("@ =~= "Restored English DataCenter ("@);
}

} // verus!
