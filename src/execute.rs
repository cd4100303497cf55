use vstd::prelude::*;

use crate::changelog::{insert_sorted, insert_sorted_exec, views};
use crate::commit::opt_text;
use crate::config::ReleaseConfig;
use crate::error::ReleaseError;
use crate::release::ReleasePlan;
use crate::text::{copy_str, push_str};

verus! {

/// The next thing the driver of an execution must do.
#[derive(Debug)]
pub enum Action {
    /// Rewrite the version in the file at `path`, then report `Done` or `Failed`.
    BumpFile { path: String, version: String },
    /// Merge `body` into the changelog file at `path` (see `merge_changelog`).
    WriteChangelog { path: String, body: String },
    /// Run the build command with the version and tag exposed to it; a non-zero exit fails.
    RunBuild { command: String, version: String, tag: String },
    /// Stage the paths and commit them together.
    StageAndCommit { paths: Vec<String>, message: String },
    /// Report whether the tag exists locally, as `Answer`.
    CheckTag { tag: String },
    CreateTag { tag: String, message: String },
    /// Push the current branch.
    Push,
    /// Report whether the tag exists on the remote, as `Answer`.
    CheckRemoteTag { tag: String },
    PushTag { tag: String },
    ForceCreateTag { tag: String, message: String },
    ForcePushTag { tag: String },
    /// Report whether a release exists for the tag, as `Answer`.
    CheckRelease { tag: String },
    DeleteRelease { tag: String },
    CreateRelease { tag: String, name: String, body: String },
    /// Report the files that the patterns match, as `Files`.
    ResolveArtifacts { patterns: Vec<String> },
    UploadAssets { tag: String, files: Vec<String> },
    /// The release is complete.
    Finish,
    /// The release stops with this error; completed steps are not undone.
    Abort(ReleaseError),
}

/// What the driver reports after performing an action.
#[derive(Debug)]
pub enum Outcome {
    Done,
    Answer(bool),
    Files(Vec<String>),
    Failed(ReleaseError),
}

/// The step an execution waits on.
#[derive(Debug, Clone, Copy, PartialEq, Eq, Structural)]
pub enum Phase {
    Bump(usize),
    Changelog,
    Build,
    Commit,
    CheckTag,
    CreateTag,
    Push,
    CheckRemoteTag,
    PushTag,
    ForceCreateTag,
    ForcePushTag,
    CheckRelease,
    DeleteRelease,
    CreateRelease,
    Artifacts,
    Upload,
    Finished,
}

/// The state of one execution of a release plan.
pub struct Execution {
    pub phase: Phase,
    pub tag: String,
    pub version: String,
    pub body: String,
    pub floating: Option<String>,
    pub release_name: String,
    pub files: Vec<String>,
    pub strict: bool,
    pub changelog_file: Option<String>,
    pub build_command: Option<String>,
    pub has_vcs: bool,
    pub artifacts: Vec<String>,
    /// The version files rewritten so far.
    pub bumped: Vec<String>,
}

/// The paths committed together: the changelog file, if any, then the rewritten version files.
pub open spec fn commit_paths(changelog: Option<Seq<char>>, bumped: Seq<Seq<char>>) -> Seq<Seq<char>> {
    match changelog {
        Some(c) => seq![c] + bumped,
        None => bumped,
    }
}

/// The distinct strings of the first `n` of `v`, in code point order.
pub open spec fn sorted_unique(v: Seq<Seq<char>>, n: int) -> Seq<Seq<char>>
    decreases n,
{
    if n <= 0 {
        Seq::empty()
    } else {
        insert_sorted(sorted_unique(v, n - 1), v[n - 1])
    }
}

impl Execution {
    /// The phase reached from the release-host steps on.
    pub open spec fn enter_artifacts(&self) -> Phase {
        if self.has_vcs && self.artifacts@.len() > 0 {
            Phase::Artifacts
        } else {
            Phase::Finished
        }
    }

    pub open spec fn enter_release(&self) -> Phase {
        if self.has_vcs {
            Phase::CheckRelease
        } else {
            self.enter_artifacts()
        }
    }

    pub open spec fn enter_floating(&self) -> Phase {
        if self.floating is Some {
            Phase::ForceCreateTag
        } else {
            self.enter_release()
        }
    }

    /// The commit step is skipped when there is nothing to stage.
    pub open spec fn enter_commit(&self, bumped: nat) -> Phase {
        if self.changelog_file is Some || bumped > 0 {
            Phase::Commit
        } else {
            Phase::CheckTag
        }
    }

    pub open spec fn enter_build(&self, bumped: nat) -> Phase {
        if self.build_command is Some {
            Phase::Build
        } else {
            self.enter_commit(bumped)
        }
    }

    pub open spec fn enter_changelog(&self, bumped: nat) -> Phase {
        if self.changelog_file is Some {
            Phase::Changelog
        } else {
            self.enter_build(bumped)
        }
    }

    pub open spec fn enter_bump(&self, i: int, bumped: nat) -> Phase {
        if 0 <= i < self.files@.len() {
            Phase::Bump(i as usize)
        } else {
            self.enter_changelog(bumped)
        }
    }

    /// Whether `o` stops the execution with an error when it answers step `p`.
    pub open spec fn aborts_at(&self, p: Phase, o: Outcome) -> bool {
        match (p, o) {
            (Phase::Finished, _) => false,
            (Phase::Bump(_), Outcome::Failed(_)) => self.strict,
            (_, Outcome::Failed(_)) => true,
            (Phase::CheckTag, Outcome::Answer(_)) => false,
            (Phase::CheckRemoteTag, Outcome::Answer(_)) => false,
            (Phase::CheckRelease, Outcome::Answer(_)) => false,
            (Phase::Artifacts, Outcome::Files(_)) => false,
            (Phase::CheckTag, _) => true,
            (Phase::CheckRemoteTag, _) => true,
            (Phase::CheckRelease, _) => true,
            (Phase::Artifacts, _) => true,
            (_, Outcome::Done) => false,
            (_, _) => true,
        }
    }

    /// Whether `o` stops the execution with an error when it answers the current step.
    pub open spec fn aborts(&self, o: Outcome) -> bool {
        self.aborts_at(self.phase, o)
    }

    /// The number of rewritten version files after outcome `o` answers step `p`, from `nb`.
    pub open spec fn bumped_at(p: Phase, nb: nat, o: Outcome) -> nat {
        match (p, o) {
            (Phase::Bump(_), Outcome::Done) => nb + 1,
            _ => nb,
        }
    }

    /// The number of rewritten version files after outcome `o`.
    pub open spec fn bumped_after(&self, o: Outcome) -> nat {
        Self::bumped_at(self.phase, self.bumped@.len(), o)
    }

    /// The step after outcome `o` answers step `p`, with `nb` version files rewritten before,
    /// when it does not abort.
    pub open spec fn next_phase_at(&self, p: Phase, nb: nat, o: Outcome) -> Phase {
        let nb = Self::bumped_at(p, nb, o);
        match (p, o) {
            (Phase::Bump(i), _) => self.enter_bump(i + 1, nb),
            (Phase::Changelog, _) => self.enter_build(nb),
            (Phase::Build, _) => self.enter_commit(nb),
            (Phase::Commit, _) => Phase::CheckTag,
            (Phase::CheckTag, Outcome::Answer(true)) => Phase::Push,
            (Phase::CheckTag, _) => Phase::CreateTag,
            (Phase::CreateTag, _) => Phase::Push,
            (Phase::Push, _) => Phase::CheckRemoteTag,
            (Phase::CheckRemoteTag, Outcome::Answer(true)) => self.enter_floating(),
            (Phase::CheckRemoteTag, _) => Phase::PushTag,
            (Phase::PushTag, _) => self.enter_floating(),
            (Phase::ForceCreateTag, _) => Phase::ForcePushTag,
            (Phase::ForcePushTag, _) => self.enter_release(),
            (Phase::CheckRelease, Outcome::Answer(true)) => Phase::DeleteRelease,
            (Phase::CheckRelease, _) => Phase::CreateRelease,
            (Phase::DeleteRelease, _) => Phase::CreateRelease,
            (Phase::CreateRelease, _) => self.enter_artifacts(),
            (Phase::Artifacts, Outcome::Files(fs)) => if sorted_unique(views(fs@), fs@.len() as int).len() > 0 {
                Phase::Upload
            } else {
                Phase::Finished
            },
            (Phase::Artifacts, _) => Phase::Finished,
            (Phase::Upload, _) => Phase::Finished,
            (Phase::Finished, _) => Phase::Finished,
        }
    }

    /// The step after outcome `o` answers the current step, when it does not abort.
    pub open spec fn next_phase(&self, o: Outcome) -> Phase {
        self.next_phase_at(self.phase, self.bumped@.len(), o)
    }

    /// `a` is the action that asks for step `p` of this execution.
    pub open spec fn describes(&self, p: Phase, a: Action) -> bool {
        match p {
            Phase::Bump(i) => a matches Action::BumpFile { path, version } && i < self.files@.len()
                && path@ == self.files@[i as int]@ && version@ == self.version@,
            Phase::Changelog => a matches Action::WriteChangelog { path, body } && opt_text(
                self.changelog_file,
            ) == Some(path@) && body@ == self.body@,
            Phase::Build => a matches Action::RunBuild { command, version, tag } && opt_text(
                self.build_command,
            ) == Some(command@) && version@ == self.version@ && tag@ == self.tag@,
            Phase::Commit => a matches Action::StageAndCommit { paths, message } && views(paths@)
                == commit_paths(opt_text(self.changelog_file), views(self.bumped@)) && message@
                == "chore(release): "@ + self.tag@ + " [skip ci]"@,
            Phase::CheckTag => a matches Action::CheckTag { tag } && tag@ == self.tag@,
            Phase::CreateTag => a matches Action::CreateTag { tag, message } && tag@ == self.tag@
                && message@ == self.body@,
            Phase::Push => a is Push,
            Phase::CheckRemoteTag => a matches Action::CheckRemoteTag { tag } && tag@ == self.tag@,
            Phase::PushTag => a matches Action::PushTag { tag } && tag@ == self.tag@,
            Phase::ForceCreateTag => a matches Action::ForceCreateTag { tag, message } && opt_text(
                self.floating,
            ) == Some(tag@) && message@ == "Floating tag for "@ + self.tag@,
            Phase::ForcePushTag => a matches Action::ForcePushTag { tag } && opt_text(self.floating)
                == Some(tag@),
            Phase::CheckRelease => a matches Action::CheckRelease { tag } && tag@ == self.tag@,
            Phase::DeleteRelease => a matches Action::DeleteRelease { tag } && tag@ == self.tag@,
            Phase::CreateRelease => a matches Action::CreateRelease { tag, name, body } && tag@
                == self.tag@ && name@ == self.release_name@ && body@ == self.body@,
            Phase::Artifacts => a matches Action::ResolveArtifacts { patterns } && views(patterns@)
                == views(self.artifacts@),
            Phase::Upload => a matches Action::UploadAssets { tag, files } && tag@ == self.tag@,
            Phase::Finished => a is Finish,
        }
    }

    /// The current step has what it needs.
    pub open spec fn wf(&self) -> bool {
        match self.phase {
            Phase::Bump(i) => i < self.files@.len(),
            Phase::Changelog => self.changelog_file is Some,
            Phase::Build => self.build_command is Some,
            Phase::ForceCreateTag => self.floating is Some,
            Phase::ForcePushTag => self.floating is Some,
            _ => true,
        }
    }

    /// The configuration and plan are kept unchanged by a step.
    pub open spec fn same_setup(&self, o: &Execution) -> bool {
        &&& self.tag == o.tag
        &&& self.version == o.version
        &&& self.body == o.body
        &&& self.floating == o.floating
        &&& self.release_name == o.release_name
        &&& self.files == o.files
        &&& self.strict == o.strict
        &&& self.changelog_file == o.changelog_file
        &&& self.build_command == o.build_command
        &&& self.has_vcs == o.has_vcs
        &&& self.artifacts == o.artifacts
    }

    /// Starts executing `plan` with the rendered changelog `body`; returns the first action.
    pub fn start(plan: &ReleasePlan, config: &ReleaseConfig, body: &str, has_vcs: bool) -> (r: (Execution, Action))
        ensures
            r.0.tag@ == plan.tag_name@,
            r.0.version@ == plan.next_version.text(),
            r.0.body@ == body@,
            opt_text(r.0.floating) == opt_text(plan.floating_tag_name),
            r.0.release_name@ == config.tag_prefix@ + " "@ + plan.next_version.text(),
            views(r.0.files@) == views(config.version_files@),
            r.0.strict == config.version_files_strict,
            opt_text(r.0.changelog_file) == opt_text(config.changelog.file),
            opt_text(r.0.build_command) == opt_text(config.build_command),
            r.0.has_vcs == has_vcs,
            views(r.0.artifacts@) == views(config.artifacts@),
            r.0.bumped@.len() == 0,
            r.0.phase == r.0.enter_bump(0, 0),
            r.0.describes(r.0.phase, r.1),
            r.0.wf(),
    {
        let version = plan.next_version.to_text();
        let mut release_name = copy_str(config.tag_prefix.as_str());
        push_str(&mut release_name, " ");
        push_str(&mut release_name, version.as_str());
        let mut e = Execution {
            phase: Phase::Finished,
            tag: plan.tag_name.clone(),
            version,
            body: copy_str(body),
            floating: copy_opt(&plan.floating_tag_name),
            release_name,
            files: copy_strings(&config.version_files),
            strict: config.version_files_strict,
            changelog_file: copy_opt(&config.changelog.file),
            build_command: copy_opt(&config.build_command),
            has_vcs,
            artifacts: copy_strings(&config.artifacts),
            bumped: Vec::new(),
        };
        let a = e.enter_bump_exec(0);
        (e, a)
    }
}

impl Execution {
    /// Moves to step `p`, which needs no data beyond the setup, and returns its action.
    fn ask(&mut self, p: Phase) -> (a: Action)
        requires
            !(p is Bump) && !(p is Commit) && !(p is Upload),
            p is Changelog ==> old(self).changelog_file is Some,
            p is Build ==> old(self).build_command is Some,
            p is ForceCreateTag || p is ForcePushTag ==> old(self).floating is Some,
        ensures
            final(self).same_setup(old(self)),
            final(self).bumped == old(self).bumped,
            final(self).phase == p,
            final(self).describes(p, a),
            final(self).wf(),
    {
        self.phase = p;
        match p {
            Phase::Changelog => Action::WriteChangelog {
                path: copy_opt(&self.changelog_file).unwrap(),
                body: self.body.clone(),
            },
            Phase::Build => Action::RunBuild {
                command: copy_opt(&self.build_command).unwrap(),
                version: self.version.clone(),
                tag: self.tag.clone(),
            },
            Phase::CheckTag => Action::CheckTag { tag: self.tag.clone() },
            Phase::CreateTag => Action::CreateTag { tag: self.tag.clone(), message: self.body.clone() },
            Phase::Push => Action::Push,
            Phase::CheckRemoteTag => Action::CheckRemoteTag { tag: self.tag.clone() },
            Phase::PushTag => Action::PushTag { tag: self.tag.clone() },
            Phase::ForceCreateTag => {
                let mut message = copy_str("Floating tag for ");
                push_str(&mut message, self.tag.as_str());
                Action::ForceCreateTag { tag: copy_opt(&self.floating).unwrap(), message }
            },
            Phase::ForcePushTag => Action::ForcePushTag { tag: copy_opt(&self.floating).unwrap() },
            Phase::CheckRelease => Action::CheckRelease { tag: self.tag.clone() },
            Phase::DeleteRelease => Action::DeleteRelease { tag: self.tag.clone() },
            Phase::CreateRelease => Action::CreateRelease {
                tag: self.tag.clone(),
                name: self.release_name.clone(),
                body: self.body.clone(),
            },
            Phase::Artifacts => Action::ResolveArtifacts { patterns: copy_strings(&self.artifacts) },
            _ => Action::Finish,
        }
    }

    fn enter_artifacts_exec(&mut self) -> (a: Action)
        ensures
            final(self).same_setup(old(self)),
            final(self).bumped == old(self).bumped,
            final(self).phase == old(self).enter_artifacts(),
            final(self).describes(final(self).phase, a),
            final(self).wf(),
    {
        if self.has_vcs && self.artifacts.len() > 0 {
            self.ask(Phase::Artifacts)
        } else {
            self.ask(Phase::Finished)
        }
    }

    fn enter_release_exec(&mut self) -> (a: Action)
        ensures
            final(self).same_setup(old(self)),
            final(self).bumped == old(self).bumped,
            final(self).phase == old(self).enter_release(),
            final(self).describes(final(self).phase, a),
            final(self).wf(),
    {
        if self.has_vcs {
            self.ask(Phase::CheckRelease)
        } else {
            self.enter_artifacts_exec()
        }
    }

    fn enter_floating_exec(&mut self) -> (a: Action)
        ensures
            final(self).same_setup(old(self)),
            final(self).bumped == old(self).bumped,
            final(self).phase == old(self).enter_floating(),
            final(self).describes(final(self).phase, a),
            final(self).wf(),
    {
        if self.floating.is_some() {
            self.ask(Phase::ForceCreateTag)
        } else {
            self.enter_release_exec()
        }
    }

    fn enter_commit_exec(&mut self) -> (a: Action)
        ensures
            final(self).same_setup(old(self)),
            final(self).bumped == old(self).bumped,
            final(self).phase == old(self).enter_commit(old(self).bumped@.len()),
            final(self).describes(final(self).phase, a),
            final(self).wf(),
    {
        if self.changelog_file.is_some() || self.bumped.len() > 0 {
            let mut paths: Vec<String> = Vec::new();
            match &self.changelog_file {
                Some(c) => paths.push(c.clone()),
                None => {},
            }
            let mut i: usize = 0;
            let ghost first = paths@;
            while i < self.bumped.len()
                invariant
                    i <= self.bumped@.len(),
                    views(paths@) == views(first) + views(self.bumped@.subrange(0, i as int)),
                decreases self.bumped.len() - i,
            {
                let ghost prev = paths@;
                let c = self.bumped[i].clone();
                paths.push(c);
                assert(paths@ =~= prev.push(self.bumped@[i as int]));
                assert(views(paths@) =~= views(prev).push(self.bumped@[i as int]@));
                assert(views(self.bumped@.subrange(0, i + 1)) =~= views(self.bumped@.subrange(0, i as int)).push(self.bumped@[i as int]@));
                i = i + 1;
            }
            assert(self.bumped@.subrange(0, self.bumped@.len() as int) =~= self.bumped@);
            assert(views(paths@) =~= commit_paths(opt_text(self.changelog_file), views(self.bumped@)));
            let mut message = copy_str("chore(release): ");
            push_str(&mut message, self.tag.as_str());
            push_str(&mut message, " [skip ci]");
            self.phase = Phase::Commit;
            Action::StageAndCommit { paths, message }
        } else {
            self.ask(Phase::CheckTag)
        }
    }

    fn enter_build_exec(&mut self) -> (a: Action)
        ensures
            final(self).same_setup(old(self)),
            final(self).bumped == old(self).bumped,
            final(self).phase == old(self).enter_build(old(self).bumped@.len()),
            final(self).describes(final(self).phase, a),
            final(self).wf(),
    {
        if self.build_command.is_some() {
            self.ask(Phase::Build)
        } else {
            self.enter_commit_exec()
        }
    }

    fn enter_changelog_exec(&mut self) -> (a: Action)
        ensures
            final(self).same_setup(old(self)),
            final(self).bumped == old(self).bumped,
            final(self).phase == old(self).enter_changelog(old(self).bumped@.len()),
            final(self).describes(final(self).phase, a),
            final(self).wf(),
    {
        if self.changelog_file.is_some() {
            self.ask(Phase::Changelog)
        } else {
            self.enter_build_exec()
        }
    }

    fn enter_bump_exec(&mut self, i: usize) -> (a: Action)
        ensures
            final(self).same_setup(old(self)),
            final(self).bumped == old(self).bumped,
            final(self).phase == old(self).enter_bump(i as int, old(self).bumped@.len()),
            final(self).describes(final(self).phase, a),
            final(self).wf(),
    {
        if i < self.files.len() {
            self.phase = Phase::Bump(i);
            Action::BumpFile { path: self.files[i].clone(), version: self.version.clone() }
        } else {
            self.enter_changelog_exec()
        }
    }
}

fn copy_opt(o: &Option<String>) -> (r: Option<String>)
    ensures
        opt_text(r) == opt_text(*o),
{
    match o {
        Some(s) => Some(s.clone()),
        None => None,
    }
}

fn copy_strings(v: &Vec<String>) -> (r: Vec<String>)
    ensures
        views(r@) == views(v@),
{
    let mut out: Vec<String> = Vec::new();
    let mut i: usize = 0;
    while i < v.len()
        invariant
            i <= v@.len(),
            views(out@) == views(v@.subrange(0, i as int)),
        decreases v.len() - i,
    {
        let ghost prev = out@;
        let c = v[i].clone();
        out.push(c);
        assert(out@ =~= prev.push(v@[i as int]));
        assert(views(out@) =~= views(prev).push(v@[i as int]@));
        assert(views(v@.subrange(0, i + 1)) =~= views(v@.subrange(0, i as int)).push(v@[i as int]@));
        i = i + 1;
    }
    assert(v@.subrange(0, v@.len() as int) =~= v@);
    out
}

} // verus!

verus! {

/// The distinct strings of `v`, in code point order.
pub fn sorted_unique_exec(v: &Vec<String>) -> (r: Vec<String>)
    ensures
        views(r@) == sorted_unique(views(v@), v@.len() as int),
{
    let mut out: Vec<String> = Vec::new();
    let mut i: usize = 0;
    while i < v.len()
        invariant
            i <= v@.len(),
            views(out@) == sorted_unique(views(v@), i as int),
        decreases v.len() - i,
    {
        insert_sorted_exec(&mut out, &v[i]);
        assert(views(v@)[i as int] == v@[i as int]@);
        i = i + 1;
    }
    out
}

fn unexpected() -> (r: ReleaseError)
    ensures
        r is Config,
{
    ReleaseError::Config(copy_str("unexpected outcome for the current release step"))
}

impl Execution {
    /// Takes the outcome of the current step and returns the next action.
    ///
    /// A failed step aborts the release, except a version file in lenient mode, which is
    /// skipped. The tag is created only when the local check says it is missing, and pushed
    /// only when the remote check says so; the floating tag is always moved and pushed; an
    /// existing release is deleted before it is created again.
    pub fn advance(&mut self, o: Outcome) -> (a: Action)
        requires
            old(self).wf(),
        ensures
            final(self).wf(),
            final(self).same_setup(old(self)),
            old(self).aborts(o) ==> final(self).phase == Phase::Finished && (a matches Action::Abort(
                x,
            ) && (o matches Outcome::Failed(e) ==> x == e)),
            !old(self).aborts(o) ==> final(self).phase == old(self).next_phase(o)
                && final(self).describes(final(self).phase, a),
            views(final(self).bumped@) == match (old(self).phase, o) {
                (Phase::Bump(i), Outcome::Done) => views(old(self).bumped@).push(
                    old(self).files@[i as int]@,
                ),
                _ => views(old(self).bumped@),
            },
            old(self).phase is Artifacts && !old(self).aborts(o) ==> (o matches Outcome::Files(fs)
                && (final(self).phase is Upload ==> (a matches Action::UploadAssets { tag, files }
                && views(files@) == sorted_unique(views(fs@), fs@.len() as int)))),
    {
        let phase = self.phase;
        match (phase, o) {
            (Phase::Finished, _) => Action::Finish,
            (Phase::Bump(i), Outcome::Done) => {
                if i < self.files.len() {
                    let ghost prev = self.bumped@;
                    let f = self.files[i].clone();
                    self.bumped.push(f);
                    assert(views(self.bumped@) =~= views(prev).push(self.files@[i as int]@));
                }
                if i < self.files.len() {
                    self.enter_bump_exec(i + 1)
                } else {
                    self.enter_changelog_exec()
                }
            },
            (Phase::Bump(i), Outcome::Failed(e)) => {
                if self.strict {
                    self.phase = Phase::Finished;
                    Action::Abort(e)
                } else if i < self.files.len() {
                    self.enter_bump_exec(i + 1)
                } else {
                    self.enter_changelog_exec()
                }
            },
            (_, Outcome::Failed(e)) => {
                self.phase = Phase::Finished;
                Action::Abort(e)
            },
            (Phase::CheckTag, Outcome::Answer(exists)) => {
                if exists {
                    self.ask(Phase::Push)
                } else {
                    self.ask(Phase::CreateTag)
                }
            },
            (Phase::CheckRemoteTag, Outcome::Answer(exists)) => {
                if exists {
                    self.enter_floating_exec()
                } else {
                    self.ask(Phase::PushTag)
                }
            },
            (Phase::CheckRelease, Outcome::Answer(exists)) => {
                if exists {
                    self.ask(Phase::DeleteRelease)
                } else {
                    self.ask(Phase::CreateRelease)
                }
            },
            (Phase::Artifacts, Outcome::Files(fs)) => {
                let files = sorted_unique_exec(&fs);
                if files.len() > 0 {
                    self.phase = Phase::Upload;
                    Action::UploadAssets { tag: self.tag.clone(), files }
                } else {
                    self.ask(Phase::Finished)
                }
            },
            (Phase::CheckTag, _) | (Phase::CheckRemoteTag, _) | (Phase::CheckRelease, _) | (
                Phase::Artifacts,
                _,
            ) => {
                self.phase = Phase::Finished;
                Action::Abort(unexpected())
            },
            (p, Outcome::Done) => match p {
                Phase::Changelog => self.enter_build_exec(),
                Phase::Build => self.enter_commit_exec(),
                Phase::Commit => self.ask(Phase::CheckTag),
                Phase::CreateTag => self.ask(Phase::Push),
                Phase::Push => self.ask(Phase::CheckRemoteTag),
                Phase::PushTag => self.enter_floating_exec(),
                Phase::ForceCreateTag => self.ask(Phase::ForcePushTag),
                Phase::ForcePushTag => self.enter_release_exec(),
                Phase::DeleteRelease => self.ask(Phase::CreateRelease),
                Phase::CreateRelease => self.enter_artifacts_exec(),
                _ => self.ask(Phase::Finished),
            },
            (_, _) => {
                self.phase = Phase::Finished;
                Action::Abort(unexpected())
            },
        }
    }
}

} // verus!

verus! {

/// The tag is created only right after the local check answers that it is missing, and pushed
/// only right after the remote check answers that it is missing. So against a repository that
/// answers truthfully, a second run with the same plan creates and pushes the tag only if the
/// first did not: at most one creation and at most one push over both runs. The floating tag is
/// not guarded: it is moved on every run that gets past the remote check.
pub proof fn lemma_tags_created_and_pushed_once(
    first: Execution,
    second: Execution,
    local_before: bool,
    remote_before: bool,
)
    requires
        first.phase == Phase::CheckTag || first.phase == Phase::CheckRemoteTag,
        second.phase == first.phase,
    ensures
        forall|e: Execution, o: Outcome|
            !e.aborts(o) && #[trigger] e.next_phase(o) == Phase::CreateTag ==> e.phase
                == Phase::CheckTag && o == Outcome::Answer(false),
        forall|e: Execution, o: Outcome|
            !e.aborts(o) && #[trigger] e.next_phase(o) == Phase::PushTag ==> e.phase
                == Phase::CheckRemoteTag && o == Outcome::Answer(false),
        ({
            let before = if first.phase == Phase::CheckTag {
                local_before
            } else {
                remote_before
            };
            let target = if first.phase == Phase::CheckTag {
                Phase::CreateTag
            } else {
                Phase::PushTag
            };
            let acted = first.next_phase(Outcome::Answer(before)) == target;
            let after = before || acted;
            !(acted && second.next_phase(Outcome::Answer(after)) == target)
        }),
        forall|e: Execution, answer: bool|
            e.phase == Phase::CheckRemoteTag && e.floating is Some ==> #[trigger] e.next_phase(
                Outcome::Answer(answer),
            ) == Phase::PushTag || e.next_phase(Outcome::Answer(answer)) == Phase::ForceCreateTag,
        forall|e: Execution| e.floating is Some ==> #[trigger] e.enter_floating() == Phase::ForceCreateTag,
{
}

} // verus!

verus! {

/// The position of step `p` in the fixed order of an execution.
pub open spec fn step_rank(e: Execution, p: Phase) -> int {
    let l = e.files@.len() as int;
    match p {
        Phase::Bump(i) => i as int,
        Phase::Changelog => l + 1,
        Phase::Build => l + 2,
        Phase::Commit => l + 3,
        Phase::CheckTag => l + 4,
        Phase::CreateTag => l + 5,
        Phase::Push => l + 6,
        Phase::CheckRemoteTag => l + 7,
        Phase::PushTag => l + 8,
        Phase::ForceCreateTag => l + 9,
        Phase::ForcePushTag => l + 10,
        Phase::CheckRelease => l + 11,
        Phase::DeleteRelease => l + 12,
        Phase::CreateRelease => l + 13,
        Phase::Artifacts => l + 14,
        Phase::Upload => l + 15,
        Phase::Finished => l + 16,
    }
}

/// Step `p` is one that an execution can be at: a version file step names an existing file.
pub open spec fn reachable(e: Execution, p: Phase) -> bool {
    match p {
        Phase::Bump(i) => i < e.files@.len(),
        _ => true,
    }
}

proof fn lemma_step_forward_at(e: Execution, p: Phase, nb: nat, o: Outcome)
    requires
        reachable(e, p),
        p != Phase::Finished,
        !e.aborts_at(p, o),
    ensures
        step_rank(e, e.next_phase_at(p, nb, o)) > step_rank(e, p),
        reachable(e, e.next_phase_at(p, nb, o)),
{
    vstd::std_specs::vec::axiom_spec_len(&e.files);
}

/// Every step moves strictly forward in the fixed order, so one execution asks each question
/// (whether the tag exists locally, on the remote, whether a release exists) at most once.
pub proof fn lemma_steps_move_forward(e: Execution, o: Outcome)
    requires
        e.wf(),
        e.phase != Phase::Finished,
        !e.aborts(o),
    ensures
        step_rank(e, e.next_phase(o)) > step_rank(e, e.phase),
{
    lemma_step_forward_at(e, e.phase, e.bumped@.len(), o);
}

/// A repository as the tag steps see it: local tags, remote tags, and how many tags were
/// created and pushed so far.
pub open spec fn tag_answer(
    e: Execution,
    p: Phase,
    repo: (Set<Seq<char>>, Set<Seq<char>>, nat, nat),
    other: Outcome,
) -> (Outcome, (Set<Seq<char>>, Set<Seq<char>>, nat, nat)) {
    match p {
        Phase::CheckTag => (Outcome::Answer(repo.0.contains(e.tag@)), repo),
        Phase::CreateTag => (Outcome::Done, (repo.0.insert(e.tag@), repo.1, repo.2 + 1, repo.3)),
        Phase::CheckRemoteTag => (Outcome::Answer(repo.1.contains(e.tag@)), repo),
        Phase::PushTag => (Outcome::Done, (repo.0, repo.1.insert(e.tag@), repo.2, repo.3 + 1)),
        _ => (other, repo),
    }
}

/// The repository after running execution `e` from step `p` for at most `fuel` steps: the
/// repository answers the tag steps truthfully, and `others` gives the outcome of every other
/// step (any success or failure).
pub open spec fn run(
    e: Execution,
    p: Phase,
    nb: nat,
    repo: (Set<Seq<char>>, Set<Seq<char>>, nat, nat),
    others: Seq<Outcome>,
    fuel: nat,
) -> (Set<Seq<char>>, Set<Seq<char>>, nat, nat)
    decreases fuel,
{
    if fuel == 0 || p == Phase::Finished {
        repo
    } else {
        let other = if fuel < others.len() {
            others[fuel as int]
        } else {
            Outcome::Done
        };
        let (o, next_repo) = tag_answer(e, p, repo, other);
        if e.aborts_at(p, o) {
            next_repo
        } else {
            run(e, e.next_phase_at(p, nb, o), Execution::bumped_at(p, nb, o), next_repo, others, (fuel - 1) as nat)
        }
    }
}

proof fn lemma_run(
    e: Execution,
    p: Phase,
    nb: nat,
    repo: (Set<Seq<char>>, Set<Seq<char>>, nat, nat),
    others: Seq<Outcome>,
    fuel: nat,
)
    requires
        reachable(e, p),
    ensures
        ({
            let r = run(e, p, nb, repo, others, fuel);
            let l = e.files@.len() as int;
            &&& repo.0.subset_of(r.0)
            &&& repo.1.subset_of(r.1)
            &&& step_rank(e, p) <= l + 5 ==> r.2 <= repo.2 + 1 && (r.2 > repo.2 ==> r.0.contains(e.tag@))
                && (p != Phase::CreateTag && repo.0.contains(e.tag@) ==> r.2 == repo.2)
            &&& step_rank(e, p) > l + 5 ==> r.2 == repo.2
            &&& step_rank(e, p) <= l + 8 ==> r.3 <= repo.3 + 1 && (r.3 > repo.3 ==> r.1.contains(e.tag@))
                && (p != Phase::PushTag && repo.1.contains(e.tag@) ==> r.3 == repo.3)
            &&& step_rank(e, p) > l + 8 ==> r.3 == repo.3
        }),
    decreases fuel,
{
    if fuel == 0 || p == Phase::Finished {
    } else {
        let other = if fuel < others.len() {
            others[fuel as int]
        } else {
            Outcome::Done
        };
        let (o, next_repo) = tag_answer(e, p, repo, other);
        if !e.aborts_at(p, o) {
            let q = e.next_phase_at(p, nb, o);
            lemma_step_forward_at(e, p, nb, o);
            lemma_run(e, q, Execution::bumped_at(p, nb, o), next_repo, others, (fuel - 1) as nat);
            assert(q == Phase::CreateTag ==> p == Phase::CheckTag && o == Outcome::Answer(false));
            assert(q == Phase::PushTag ==> p == Phase::CheckRemoteTag && o == Outcome::Answer(false));
        }
    }
}

/// Running an execution twice with the same plan, against a repository that answers the tag
/// checks truthfully, creates the tag at most once and pushes it at most once, whatever the
/// outcomes of the other steps (version files, build, release host) are.
pub proof fn lemma_two_runs_tag_once(
    e: Execution,
    repo: (Set<Seq<char>>, Set<Seq<char>>, nat, nat),
    others1: Seq<Outcome>,
    others2: Seq<Outcome>,
    fuel: nat,
)
    ensures
        ({
            let start = e.enter_bump(0, 0);
            let first = run(e, start, 0, repo, others1, fuel);
            let second = run(e, start, 0, first, others2, fuel);
            &&& second.2 <= repo.2 + 1
            &&& second.3 <= repo.3 + 1
        }),
{
    let start = e.enter_bump(0, 0);
    let first = run(e, start, 0, repo, others1, fuel);
    lemma_run(e, start, 0, repo, others1, fuel);
    lemma_run(e, start, 0, first, others2, fuel);
}

} // verus!
