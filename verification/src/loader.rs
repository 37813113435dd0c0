//! The rules of ingest: which files are taken, when the transaction is
//! renewed, what a tag generator's output means, which errors stop the run.

use vstd::prelude::*;
use crate::errors::{AppError, AppResult, AppResultU};
use crate::tag::texts;
use crate::text::{chars_of, lowercase, string_of_range, text_eq, to_lowercase};

verus! {

/// After this many upserts the transaction is committed and a new one begun.
pub const COMMIT_EVERY: usize = 100;

/// How to ingest.
#[derive(Debug, Default, Clone)]
pub struct Config<'a> {
    /// Take only files with the extension of an image.
    pub check_extension: bool,
    /// Compute the perceptual hash.
    pub compute_dhash: bool,
    /// Name each file that would be taken, and write nothing.
    pub dry_run: bool,
    /// Go on with the next file after an error.
    pub skip_errors: bool,
    /// A program that prints tags for a file.
    pub tag_generator: Option<&'a str>,
    /// The source under which generated tags are bound.
    pub tag_source: Option<&'a str>,
    /// Take files again that the catalog holds already.
    pub update: bool,
}

/// What to do with a file.
#[derive(Clone, Copy, Debug, PartialEq, Eq)]
pub enum FilePlan {
    /// Leave it out.
    Skip,
    /// Name it and write nothing.
    DryRun,
    /// Read it and write its record.
    Ingest,
}

/// Whether `extension`, in lower case, is one that image files have.
pub open spec fn is_image_extension(extension: Seq<char>) -> bool {
    let lower = lowercase(extension);
    lower == "png"@ || lower == "jpg"@ || lower == "jpeg"@ || lower == "gif"@ || lower == "webp"@
}

/// What the plan for a file is: a file that the catalog holds is left out
/// unless files are taken again; of the others a dry run only names them.
pub open spec fn plan_spec(update: bool, dry_run: bool, exists: bool) -> FilePlan {
    if !update && exists {
        FilePlan::Skip
    } else if dry_run {
        FilePlan::DryRun
    } else {
        FilePlan::Ingest
    }
}

/// The position of the first line feed at or behind `from`; the length of
/// `s` where there is none.
pub open spec fn next_newline(s: Seq<char>, from: int) -> int
    decreases s.len() - from,
{
    if from < 0 || from >= s.len() {
        s.len() as int
    } else if s[from] == '\n' {
        from
    } else {
        next_newline(s, from + 1)
    }
}

/// The line of `s` that begins at `from`: up to the next line feed, and
/// without the carriage return that stands before that line feed.
pub open spec fn line_at(s: Seq<char>, from: int) -> Seq<char> {
    let end = next_newline(s, from);
    if from < end < s.len() && s[end - 1] == '\r' {
        s.subrange(from, end - 1)
    } else {
        s.subrange(from, end)
    }
}

/// The lines of `s` from `from` on that are not empty.
pub open spec fn tag_lines_from(s: Seq<char>, from: int) -> Seq<Seq<char>>
    decreases s.len() - from,
{
    if from < 0 || from >= s.len() {
        Seq::empty()
    } else {
        let end = next_newline(s, from);
        let rest = if from <= end < s.len() {
            tag_lines_from(s, end + 1)
        } else {
            Seq::empty()
        };
        if line_at(s, from).len() > 0 {
            seq![line_at(s, from)] + rest
        } else {
            rest
        }
    }
}

/// The tags that a generator printed: the lines of its output that are not
/// empty.
pub open spec fn tag_lines(output: Seq<char>) -> Seq<Seq<char>> {
    tag_lines_from(output, 0)
}

/// Whether a file with this extension passes for an image: `png`, `jpg`,
/// `jpeg`, `gif` or `webp`, in letters of any case. A file without an
/// extension does not.
pub fn has_image_extension(extension: Option<&str>) -> (image: bool)
    ensures
        image == (extension matches Some(e) && is_image_extension(e@)),
{
    match extension {
        Some(e) => {
            let lower = to_lowercase(e);
            text_eq(lower.as_str(), "png") || text_eq(lower.as_str(), "jpg") || text_eq(
                lower.as_str(),
                "jpeg",
            ) || text_eq(lower.as_str(), "gif") || text_eq(lower.as_str(), "webp")
        },
        None => false,
    }
}

/// The tags in the output of a tag generator: its lines that are not empty.
pub fn generated_tags(output: &str) -> (tags: Vec<String>)
    ensures
        texts(tags@) == tag_lines(output@),
{
    let v = chars_of(output);
    let ghost s = v@;
    let mut tags: Vec<String> = Vec::new();
    let mut from: usize = 0;
    assert(texts(tags@) + tag_lines_from(s, 0) =~= tag_lines_from(s, 0));
    while from < v.len()
        invariant
            from <= v.len(),
            s == v@,
            texts(tags@) + tag_lines_from(s, from as int) == tag_lines_from(s, 0),
        decreases v.len() - from,
    {
        let mut end: usize = from;
        while end < v.len() && v[end] != '\n'
            invariant
                from <= end <= v.len(),
                s == v@,
                next_newline(s, from as int) == next_newline(s, end as int),
            decreases v.len() - end,
        {
            end += 1;
        }
        let stop: usize = if from < end && end < v.len() && v[end - 1] == '\r' {
            end - 1
        } else {
            end
        };
        let ghost before = texts(tags@);
        assert(line_at(s, from as int) =~= s.subrange(from as int, stop as int));
        if stop > from {
            tags.push(string_of_range(&v, from, stop));
            assert(texts(tags@) =~= before + seq![line_at(s, from as int)]);
        }
        if end < v.len() {
            assert(texts(tags@) + tag_lines_from(s, end + 1) =~= before + tag_lines_from(
                s,
                from as int,
            ));
            from = end + 1;
        } else {
            assert(texts(tags@) =~= before + tag_lines_from(s, from as int));
            from = end;
        }
    }
    assert(texts(tags@) + tag_lines_from(s, from as int) =~= texts(tags@));
    tags
}

/// What a run of the tag generator gave: where it ended well, the tags in
/// its output; else `TagGeneratorFailed` with its error output.
pub fn generate_tags(success: bool, output: &str, error_output: &str) -> (result: AppResult<
    Vec<String>,
>)
    ensures
        match result {
            Ok(tags) => success && texts(tags@) == tag_lines(output@),
            Err(AppError::TagGeneratorFailed(words)) => !success && words@ == error_output@,
            Err(_) => false,
        },
{
    if success {
        Ok(generated_tags(output))
    } else {
        Err(AppError::TagGeneratorFailed(error_output.to_owned()))
    }
}

/// An ingest under way: how it is to be done, and how many records it has
/// written.
pub struct Loader<'a> {
    config: Config<'a>,
    counter: Counter,
}

/// The records written: how many since the transaction was last renewed,
/// and how many in all.
struct Counter {
    count: usize,
    written: Ghost<nat>,
}

impl<'a> Loader<'a> {
    #[verifier::type_invariant]
    spec fn counts_agree(self) -> bool {
        self.counter.count < COMMIT_EVERY && self.counter.count == self.counter.written@ % (
        COMMIT_EVERY as nat)
    }

    /// How the ingest is to be done.
    pub closed spec fn settings(&self) -> Config<'a> {
        self.config
    }

    /// How many records the ingest has written.
    pub closed spec fn upserts(&self) -> nat {
        self.counter.written@
    }

    /// An ingest that has written nothing yet.
    pub fn new(config: Config<'a>) -> (loader: Self)
        ensures
            loader.settings() == config,
            loader.upserts() == 0,
    {
        Loader { config, counter: Counter { count: 0, written: Ghost(0) } }
    }

    /// How the ingest is to be done.
    pub fn config(&self) -> (config: &Config<'a>)
        ensures
            *config == self.settings(),
    {
        &self.config
    }

    /// Whether a file with this extension is looked at: any file, unless
    /// extensions are checked; then those of images.
    pub fn accepts(&self, extension: Option<&str>) -> (accepted: bool)
        ensures
            accepted == (!self.settings().check_extension || (extension matches Some(e)
                && is_image_extension(e@))),
    {
        !self.config.check_extension || has_image_extension(extension)
    }

    /// Whether the plan for a file depends on the catalog holding it.
    pub fn asks_catalog(&self) -> (asks: bool)
        ensures
            asks == !self.settings().update,
    {
        !self.config.update
    }

    /// The plan for a file that passed [`Loader::accepts`]. `exists` says
    /// whether the catalog holds its path; it is not read where files are
    /// taken again.
    pub fn plan(&self, exists: bool) -> (plan: FilePlan)
        ensures
            plan == plan_spec(self.settings().update, self.settings().dry_run, exists),
    {
        if !self.config.update && exists {
            FilePlan::Skip
        } else if self.config.dry_run {
            FilePlan::DryRun
        } else {
            FilePlan::Ingest
        }
    }

    /// Counts one more record, to be written next. Says whether the
    /// transaction is to be committed and a new one begun before that: at
    /// every hundredth record.
    pub fn count_upsert(&mut self) -> (renew: bool)
        ensures
            final(self).settings() == old(self).settings(),
            final(self).upserts() == old(self).upserts() + 1,
            renew == (final(self).upserts() % (COMMIT_EVERY as nat) == 0),
    {
        proof {
            use_type_invariant(&*self);
        }
        let next = if self.counter.count + 1 == COMMIT_EVERY {
            0
        } else {
            self.counter.count + 1
        };
        let ghost total = self.counter.written@ + 1;
        self.counter = Counter { count: next, written: Ghost(total) };
        next == 0
    }

    /// The source under which generated tags are bound: the one asked for,
    /// else `unknown`.
    pub fn tag_source(&self) -> (source: &str)
        ensures
            source@ == (match self.settings().tag_source {
                Some(s) => s@,
                None => "unknown"@,
            }),
    {
        match self.config.tag_source {
            Some(s) => s,
            None => "unknown",
        }
    }

    /// What becomes of the outcome of one file: an error is dropped where
    /// errors are skipped, and handed on where they are not.
    pub fn load_file(&self, outcome: AppResultU) -> (result: AppResultU)
        ensures
            result == (if self.settings().skip_errors {
                Ok::<(), AppError>(())
            } else {
                outcome
            }),
    {
        if self.config.skip_errors {
            Ok(())
        } else {
            outcome
        }
    }
}

} // verus!
