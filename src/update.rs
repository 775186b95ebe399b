//! Self-update: choosing the release asset and replacing the running
//! executable step by step.
//!
//! The replacement is a small state machine. The caller asks for the next
//! action, performs it on disk, and reports whether it succeeded, until the
//! machine finishes or fails.
use vstd::prelude::*;
use crate::error::McmodError;
use crate::text::{append_str, chars_of, same_text, string_of};

verus! {

/// A release as the release manifest describes it.
#[derive(Debug)]
pub struct ReleaseManifest {
    pub tag_name: Option<String>,
    pub assets: Option<Vec<ReleaseAsset>>,
}

/// One downloadable file of a release.
#[derive(Debug)]
pub struct ReleaseAsset {
    pub name: Option<String>,
    pub download_url: Option<String>,
}

/// `tag` without one leading `v`.
pub open spec fn version_of_tag(tag: Seq<char>) -> Seq<char> {
    if tag.len() > 0 && tag[0] == 'v' { tag.drop_first() } else { tag }
}

/// The version that a release tag names: the tag without a leading `v`.
pub fn strip_version_prefix(tag: &str) -> (r: String)
    ensures
        r@ == version_of_tag(tag@),
{
    let cs = chars_of(tag);
    if cs.len() > 0 && cs[0] == 'v' {
        let (_, rest) = cs.as_slice().split_at(1);
        assert(rest@ =~= tag@.drop_first());
        string_of(rest)
    } else {
        tag.to_owned()
    }
}

/// The latest version that the release manifest announces.
pub fn fetch_latest_version(release: &ReleaseManifest) -> (r: Result<String, McmodError>)
    ensures
        release.tag_name matches Some(t) ==> (r matches Ok(v) && v@ == version_of_tag(t@)),
        release.tag_name is None ==> (r matches Err(McmodError::Other(m)) && m@
            == "No tag_name in release response"@),
{
    match &release.tag_name {
        Some(t) => Ok(strip_version_prefix(t.as_str())),
        None => Err(McmodError::Other("No tag_name in release response".to_owned())),
    }
}

/// Whether the running version is the latest one.
pub fn is_up_to_date(current: &str, latest: &str) -> (r: bool)
    ensures
        r == (current@ == latest@),
{
    same_text(current, latest)
}

/// The release asset built for an operating system and architecture.
pub open spec fn asset_for(os: Seq<char>, arch: Seq<char>) -> Option<Seq<char>> {
    if os == "linux"@ && arch == "x86_64"@ {
        Some("mcmod-linux-x86_64"@)
    } else if os == "macos"@ && arch == "x86_64"@ {
        Some("mcmod-macos-x86_64"@)
    } else if os == "macos"@ && arch == "aarch64"@ {
        Some("mcmod-macos-aarch64"@)
    } else if os == "windows"@ && arch == "x86_64"@ {
        Some("mcmod-windows-x86_64.exe"@)
    } else {
        None
    }
}

/// The name of the release asset for an operating system and architecture
/// (as `std::env::consts` names them); other platforms are not supported.
pub fn get_asset_name(os: &str, arch: &str) -> (r: Result<String, McmodError>)
    ensures
        asset_for(os@, arch@) matches Some(n) ==> (r matches Ok(v) && v@ == n),
        asset_for(os@, arch@) is None ==> (r matches Err(McmodError::Other(m)) && m@
            == "Unsupported platform: "@ + os@ + "/"@ + arch@),
{
    let linux = same_text(os, "linux");
    let macos = same_text(os, "macos");
    let windows = same_text(os, "windows");
    let x86 = same_text(arch, "x86_64");
    let arm = same_text(arch, "aarch64");
    if linux && x86 {
        Ok("mcmod-linux-x86_64".to_owned())
    } else if macos && x86 {
        Ok("mcmod-macos-x86_64".to_owned())
    } else if macos && arm {
        Ok("mcmod-macos-aarch64".to_owned())
    } else if windows && x86 {
        Ok("mcmod-windows-x86_64.exe".to_owned())
    } else {
        let mut m = chars_of("Unsupported platform: ");
        append_str(&mut m, os);
        append_str(&mut m, "/");
        append_str(&mut m, arch);
        Err(McmodError::Other(string_of(m.as_slice())))
    }
}

pub open spec fn name_of(a: ReleaseAsset) -> Seq<char> {
    match a.name {
        Some(n) => n@,
        None => Seq::<char>::empty(),
    }
}

/// The index of the first asset named `name`, or the number of assets.
pub open spec fn first_named(assets: Seq<ReleaseAsset>, name: Seq<char>) -> int
    decreases assets.len(),
{
    if assets.len() == 0 {
        0
    } else if name_of(assets[0]) == name {
        0
    } else {
        1 + first_named(assets.drop_first(), name)
    }
}

proof fn lemma_first_named_range(assets: Seq<ReleaseAsset>, name: Seq<char>)
    ensures
        0 <= first_named(assets, name) <= assets.len(),
    decreases assets.len(),
{
    if assets.len() > 0 && name_of(assets[0]) != name {
        lemma_first_named_range(assets.drop_first(), name);
    }
}

/// The download location of the asset named `asset_name` in the release: the
/// first asset of that exact name decides.
pub fn fetch_asset_url(release: &ReleaseManifest, version: &str, asset_name: &str) -> (r: Result<String, McmodError>)
    ensures
        release.assets is None ==> (r matches Err(McmodError::Other(m)) && m@
            == "No assets in release response"@),
        release.assets matches Some(assets) ==> ({
            let i = first_named(assets@, asset_name@);
            &&& 0 <= i <= assets@.len()
            &&& i < assets@.len() ==> (assets@[i].download_url matches Some(u) ==> (r matches Ok(v)
                && v@ == u@))
            &&& i < assets@.len() ==> (assets@[i].download_url is None ==> (r matches Err(
                McmodError::Other(m),
            ) && m@ == "No download URL for asset"@))
            &&& i >= assets@.len() ==> (r matches Err(McmodError::Other(m)) && m@
                == "No release asset found matching '"@ + asset_name@ + "' for v"@ + version@)
        }),
{
    let assets = match &release.assets {
        Some(a) => a,
        None => {
            return Err(McmodError::Other("No assets in release response".to_owned()));
        },
    };
    let wanted = chars_of(asset_name);
    let mut i: usize = 0;
    assert(assets@.skip(0) =~= assets@);
    proof {
        lemma_first_named_range(assets@, asset_name@);
    }
    while i < assets.len()
        invariant
            i <= assets@.len(),
            release.assets == Some(*assets),
            0 <= first_named(assets@, asset_name@) <= assets@.len(),
            wanted@ == asset_name@,
            first_named(assets@, asset_name@) == i + first_named(assets@.skip(i as int), asset_name@),
        decreases assets@.len() - i,
    {
        let a = &assets[i];
        let name = match &a.name {
            Some(n) => chars_of(n.as_str()),
            None => Vec::new(),
        };
        assert(name@ == name_of(assets@[i as int]));
        assert(assets@.skip(i as int)[0] == assets@[i as int]);
        if crate::text::same_chars(name.as_slice(), wanted.as_slice()) {
            assert(first_named(assets@, asset_name@) == i);
            return match &a.download_url {
                Some(u) => Ok(u.clone()),
                None => Err(McmodError::Other("No download URL for asset".to_owned())),
            };
        }
        assert(assets@.skip(i as int).drop_first() =~= assets@.skip(i + 1));
        i = i + 1;
    }
    let mut m = chars_of("No release asset found matching '");
    append_str(&mut m, asset_name);
    append_str(&mut m, "' for v");
    append_str(&mut m, version);
    Err(McmodError::Other(string_of(m.as_slice())))
}

/// How the running executable is replaced.
#[derive(Debug, Clone, Copy, PartialEq, Eq, Structural)]
pub enum ReplaceStrategy {
    /// Write the payload beside the executable, mark it executable, and
    /// rename it onto the executable's path in one step.
    RenameBased,
    /// Move the executable to a backup path, write the payload at its path,
    /// and move the backup back if that write fails.
    DisplaceAndWrite,
}

/// The strategy for the platform: renaming onto a running executable works on
/// Unix-like systems only.
pub fn replace_strategy(unix: bool) -> (r: ReplaceStrategy)
    ensures
        unix ==> r == ReplaceStrategy::RenameBased,
        !unix ==> r == ReplaceStrategy::DisplaceAndWrite,
{
    if unix { ReplaceStrategy::RenameBased } else { ReplaceStrategy::DisplaceAndWrite }
}

/// One action on disk, or the end of the replacement.
#[derive(Debug, PartialEq, Eq)]
pub enum ReplaceAction {
    /// Write the downloaded payload to `path`.
    WritePayload { path: String },
    /// Give the file at `path` executable permissions.
    MarkExecutable { path: String },
    /// Rename `from` onto `to`, replacing what is there.
    Rename { from: String, to: String },
    /// Remove the file at `path`; a failure is of no consequence.
    RemoveFile { path: String },
    /// The new executable is in place.
    Finish,
    /// The replacement failed; report the first error of a step that is not
    /// a removal.
    Fail,
}

pub enum ActionView {
    WritePayload(Seq<char>),
    MarkExecutable(Seq<char>),
    Rename(Seq<char>, Seq<char>),
    RemoveFile(Seq<char>),
    Finish,
    Fail,
}

impl View for ReplaceAction {
    type V = ActionView;

    open spec fn view(&self) -> ActionView {
        match self {
            ReplaceAction::WritePayload { path } => ActionView::WritePayload(path@),
            ReplaceAction::MarkExecutable { path } => ActionView::MarkExecutable(path@),
            ReplaceAction::Rename { from, to } => ActionView::Rename(from@, to@),
            ReplaceAction::RemoveFile { path } => ActionView::RemoveFile(path@),
            ReplaceAction::Finish => ActionView::Finish,
            ReplaceAction::Fail => ActionView::Fail,
        }
    }
}

/// The stage after which the new executable is in place.
pub const DONE: u8 = 10;
/// The stage after a failure.
pub const FAILED: u8 = 11;

/// The replacement of the executable at `exe`, using `side` as the temporary
/// path (rename-based) or the backup path (displace-and-write).
pub struct Replacer {
    pub strategy: ReplaceStrategy,
    pub exe: String,
    pub side: String,
    pub stage: u8,
}

pub open spec fn action_at(strategy: ReplaceStrategy, exe: Seq<char>, side: Seq<char>, stage: u8) -> ActionView {
    if stage == DONE {
        ActionView::Finish
    } else if stage == FAILED {
        ActionView::Fail
    } else {
        match strategy {
            ReplaceStrategy::RenameBased => {
                if stage == 0 {
                    ActionView::WritePayload(side)
                } else if stage == 1 {
                    ActionView::MarkExecutable(side)
                } else if stage == 2 {
                    ActionView::Rename(side, exe)
                } else {
                    ActionView::Fail
                }
            },
            ReplaceStrategy::DisplaceAndWrite => {
                if stage == 0 {
                    ActionView::RemoveFile(side)
                } else if stage == 1 {
                    ActionView::Rename(exe, side)
                } else if stage == 2 {
                    ActionView::WritePayload(exe)
                } else if stage == 3 {
                    ActionView::RemoveFile(side)
                } else if stage == 4 {
                    ActionView::Rename(side, exe)
                } else {
                    ActionView::Fail
                }
            },
        }
    }
}

/// The stage that follows `stage` when its action succeeded (`ok`) or not.
pub open spec fn next_stage(strategy: ReplaceStrategy, stage: u8, ok: bool) -> u8 {
    if stage == DONE || stage == FAILED {
        stage
    } else {
        match strategy {
            ReplaceStrategy::RenameBased => {
                if !ok || stage > 2 {
                    FAILED
                } else if stage == 2 {
                    DONE
                } else {
                    (stage + 1) as u8
                }
            },
            ReplaceStrategy::DisplaceAndWrite => {
                if stage == 0 {
                    1
                } else if stage == 1 {
                    if ok { 2 } else { FAILED }
                } else if stage == 2 {
                    if ok { 3 } else { 4 }
                } else if stage == 3 {
                    DONE
                } else {
                    FAILED
                }
            },
        }
    }
}

impl Replacer {
    pub fn new(strategy: ReplaceStrategy, exe: String, side: String) -> (r: Replacer)
        ensures
            r.strategy == strategy,
            r.exe == exe,
            r.side == side,
            r.stage == 0,
    {
        Replacer { strategy, exe, side, stage: 0 }
    }

    /// The action to perform now.
    pub fn action(&self) -> (r: ReplaceAction)
        ensures
            r@ == action_at(self.strategy, self.exe@, self.side@, self.stage),
    {
        if self.stage == DONE {
            return ReplaceAction::Finish;
        }
        if self.stage == FAILED {
            return ReplaceAction::Fail;
        }
        match self.strategy {
            ReplaceStrategy::RenameBased => {
                if self.stage == 0 {
                    ReplaceAction::WritePayload { path: self.side.clone() }
                } else if self.stage == 1 {
                    ReplaceAction::MarkExecutable { path: self.side.clone() }
                } else if self.stage == 2 {
                    ReplaceAction::Rename { from: self.side.clone(), to: self.exe.clone() }
                } else {
                    ReplaceAction::Fail
                }
            },
            ReplaceStrategy::DisplaceAndWrite => {
                if self.stage == 0 {
                    ReplaceAction::RemoveFile { path: self.side.clone() }
                } else if self.stage == 1 {
                    ReplaceAction::Rename { from: self.exe.clone(), to: self.side.clone() }
                } else if self.stage == 2 {
                    ReplaceAction::WritePayload { path: self.exe.clone() }
                } else if self.stage == 3 {
                    ReplaceAction::RemoveFile { path: self.side.clone() }
                } else if self.stage == 4 {
                    ReplaceAction::Rename { from: self.side.clone(), to: self.exe.clone() }
                } else {
                    ReplaceAction::Fail
                }
            },
        }
    }

    /// Moves on after the current action succeeded (`ok`) or failed.
    pub fn advance(&mut self, ok: bool)
        ensures
            final(self).strategy == old(self).strategy,
            final(self).exe == old(self).exe,
            final(self).side == old(self).side,
            final(self).stage == next_stage(old(self).strategy, old(self).stage, ok),
    {
        let s = self.stage;
        if s == DONE || s == FAILED {
            return;
        }
        let next: u8 = match self.strategy {
            ReplaceStrategy::RenameBased => {
                if !ok || s > 2 {
                    FAILED
                } else if s == 2 {
                    DONE
                } else {
                    s + 1
                }
            },
            ReplaceStrategy::DisplaceAndWrite => {
                if s == 0 {
                    1
                } else if s == 1 {
                    if ok { 2 } else { FAILED }
                } else if s == 2 {
                    if ok { 3 } else { 4 }
                } else if s == 3 {
                    DONE
                } else {
                    FAILED
                }
            },
        };
        self.stage = next;
    }
}

/// A file as the replacement sees it.
pub struct FileState {
    pub data: Seq<u8>,
    pub executable: bool,
}

/// The files by path.
pub type Files = Map<Seq<char>, FileState>;

/// The files after `a` was performed with outcome `ok`. A failed action
/// changes nothing; writing keeps an existing file's permissions and makes a
/// new file not executable.
pub open spec fn perform(fs: Files, a: ActionView, ok: bool, payload: Seq<u8>) -> Files {
    if !ok {
        fs
    } else {
        match a {
            ActionView::WritePayload(p) => fs.insert(
                p,
                FileState { data: payload, executable: fs.contains_key(p) && fs[p].executable },
            ),
            ActionView::MarkExecutable(p) => if fs.contains_key(p) {
                fs.insert(p, FileState { data: fs[p].data, executable: true })
            } else {
                fs
            },
            ActionView::Rename(from, to) => if fs.contains_key(from) {
                fs.remove(from).insert(to, fs[from])
            } else {
                fs
            },
            ActionView::RemoveFile(p) => fs.remove(p),
            ActionView::Finish => fs,
            ActionView::Fail => fs,
        }
    }
}

/// The stage and files after running the replacement from `stage` with the
/// outcomes `oks`, one per action.
pub open spec fn run_replacement(
    strategy: ReplaceStrategy,
    exe: Seq<char>,
    side: Seq<char>,
    stage: u8,
    fs: Files,
    oks: Seq<bool>,
    payload: Seq<u8>,
) -> (u8, Files)
    decreases oks.len(),
{
    if oks.len() == 0 || stage == DONE || stage == FAILED {
        (stage, fs)
    } else {
        run_replacement(
            strategy,
            exe,
            side,
            next_stage(strategy, stage, oks[0]),
            perform(fs, action_at(strategy, exe, side, stage), oks[0], payload),
            oks.drop_first(),
            payload,
        )
    }
}

/// When every action of the rename-based replacement succeeds, it finishes
/// with the executable's path holding the payload, marked executable, and no
/// temporary file left.
pub proof fn lemma_rename_success(exe: Seq<char>, temp: Seq<char>, fs: Files, payload: Seq<u8>)
    requires
        exe != temp,
    ensures
        ({
            let (stage, out) = run_replacement(ReplaceStrategy::RenameBased, exe, temp, 0, fs,
                seq![true, true, true], payload);
            &&& stage == DONE
            &&& out.contains_key(exe)
            &&& out[exe] == FileState { data: payload, executable: true }
            &&& !out.contains_key(temp)
        }),
{
    let oks = seq![true, true, true];
    let s = ReplaceStrategy::RenameBased;
    let fs1 = perform(fs, action_at(s, exe, temp, 0), true, payload);
    let fs2 = perform(fs1, action_at(s, exe, temp, 1), true, payload);
    let fs3 = perform(fs2, action_at(s, exe, temp, 2), true, payload);
    assert(oks.drop_first() =~= seq![true, true]);
    assert(oks.drop_first().drop_first() =~= seq![true]);
    assert(oks.drop_first().drop_first().drop_first() =~= Seq::<bool>::empty());
    assert(fs1.contains_key(temp));
    assert(fs2[temp] == FileState { data: payload, executable: true });
    assert(fs3 == fs2.remove(temp).insert(exe, fs2[temp]));
    assert(run_replacement(s, exe, temp, 0, fs, oks, payload) == run_replacement(s, exe, temp, 1, fs1, oks.drop_first(), payload));
    assert(run_replacement(s, exe, temp, 1, fs1, oks.drop_first(), payload) == run_replacement(s, exe, temp, 2, fs2, oks.drop_first().drop_first(), payload));
    assert(run_replacement(s, exe, temp, 2, fs2, oks.drop_first().drop_first(), payload) == run_replacement(s, exe, temp, DONE, fs3, oks.drop_first().drop_first().drop_first(), payload));
}

/// When the displace-and-write replacement fails to write the payload (after
/// moving the executable aside, and whatever became of clearing a stale
/// backup), it moves the old executable back: the executable's path holds the
/// file it held before, the backup path is free, and the replacement fails.
pub proof fn lemma_displace_rollback(exe: Seq<char>, backup: Seq<char>, fs: Files, payload: Seq<u8>, cleared: bool)
    requires
        exe != backup,
        fs.contains_key(exe),
    ensures
        ({
            let (stage, out) = run_replacement(ReplaceStrategy::DisplaceAndWrite, exe, backup, 0,
                fs, seq![cleared, true, false, true], payload);
            &&& stage == FAILED
            &&& out.contains_key(exe)
            &&& out[exe] == fs[exe]
            &&& !out.contains_key(backup)
        }),
{
    let oks = seq![cleared, true, false, true];
    let s = ReplaceStrategy::DisplaceAndWrite;
    let fs1 = perform(fs, action_at(s, exe, backup, 0), cleared, payload);
    let fs2 = perform(fs1, action_at(s, exe, backup, 1), true, payload);
    let fs3 = perform(fs2, action_at(s, exe, backup, 2), false, payload);
    let fs4 = perform(fs3, action_at(s, exe, backup, 4), true, payload);
    let o1 = oks.drop_first();
    let o2 = o1.drop_first();
    let o3 = o2.drop_first();
    let o4 = o3.drop_first();
    assert(o1 =~= seq![true, false, true]);
    assert(o2 =~= seq![false, true]);
    assert(o3 =~= seq![true]);
    assert(o4 =~= Seq::<bool>::empty());
    assert(fs1.contains_key(exe) && fs1[exe] == fs[exe]);
    assert(fs2 == fs1.remove(exe).insert(backup, fs1[exe]));
    assert(fs3 == fs2);
    assert(fs4 == fs3.remove(backup).insert(exe, fs3[backup]));
    assert(run_replacement(s, exe, backup, 0, fs, oks, payload) == run_replacement(s, exe, backup, 1, fs1, o1, payload));
    assert(run_replacement(s, exe, backup, 1, fs1, o1, payload) == run_replacement(s, exe, backup, 2, fs2, o2, payload));
    assert(run_replacement(s, exe, backup, 2, fs2, o2, payload) == run_replacement(s, exe, backup, 4, fs3, o3, payload));
    assert(run_replacement(s, exe, backup, 4, fs3, o3, payload) == run_replacement(s, exe, backup, FAILED, fs4, o4, payload));
}

/// When every action of the displace-and-write replacement succeeds, it
/// finishes with the executable's path holding the payload and no backup left.
pub proof fn lemma_displace_success(exe: Seq<char>, backup: Seq<char>, fs: Files, payload: Seq<u8>)
    requires
        exe != backup,
        fs.contains_key(exe),
    ensures
        ({
            let (stage, out) = run_replacement(ReplaceStrategy::DisplaceAndWrite, exe, backup, 0,
                fs, seq![true, true, true, true], payload);
            &&& stage == DONE
            &&& out.contains_key(exe)
            &&& out[exe].data == payload
            &&& !out.contains_key(backup)
        }),
{
    let oks = seq![true, true, true, true];
    let s = ReplaceStrategy::DisplaceAndWrite;
    let fs1 = perform(fs, action_at(s, exe, backup, 0), true, payload);
    let fs2 = perform(fs1, action_at(s, exe, backup, 1), true, payload);
    let fs3 = perform(fs2, action_at(s, exe, backup, 2), true, payload);
    let fs4 = perform(fs3, action_at(s, exe, backup, 3), true, payload);
    let o1 = oks.drop_first();
    let o2 = o1.drop_first();
    let o3 = o2.drop_first();
    let o4 = o3.drop_first();
    assert(o1 =~= seq![true, true, true]);
    assert(o2 =~= seq![true, true]);
    assert(o3 =~= seq![true]);
    assert(o4 =~= Seq::<bool>::empty());
    assert(fs1.contains_key(exe));
    assert(fs2 == fs1.remove(exe).insert(backup, fs1[exe]));
    assert(run_replacement(s, exe, backup, 0, fs, oks, payload) == run_replacement(s, exe, backup, 1, fs1, o1, payload));
    assert(run_replacement(s, exe, backup, 1, fs1, o1, payload) == run_replacement(s, exe, backup, 2, fs2, o2, payload));
    assert(run_replacement(s, exe, backup, 2, fs2, o2, payload) == run_replacement(s, exe, backup, 3, fs3, o3, payload));
    assert(run_replacement(s, exe, backup, 3, fs3, o3, payload) == run_replacement(s, exe, backup, DONE, fs4, o4, payload));
}

} // verus!
