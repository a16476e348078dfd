//! The probe on the command line.

use crate::media::url::{
    captured_links, link_model, link_models, lone_link, parse_tweet_urls, tweet_url_captures,
    LoneLink, TweetLink, TweetLinks,
};
use crate::pipeline::types::Progress;
use crate::text::{decimal, decimal_of, same, starts_with, str_starts_with, views};
use vstd::prelude::*;
use vstd::string::StringExecFns;

verus! {

pub const USAGE: &'static str = "usage: azalea-probe [--compact] [--keep-output DIR] <tweet-url>";

#[derive(Debug)]
pub struct Args {
    pub url: String,
    pub keep_output_dir: Option<String>,
    pub compact: bool,
}

/// What the arguments say.
#[derive(Debug)]
pub enum ArgsResult {
    Run { args: Args },
    Help,
    Failed { message: String },
}

/// The arguments read so far.
pub struct Gathered {
    pub url: Option<Seq<char>>,
    pub keep: Option<Seq<char>>,
    pub compact: bool,
}

pub enum GatherModel {
    Run { url: Seq<char>, keep: Option<Seq<char>>, compact: bool },
    Help,
    Failed { message: Seq<char> },
}

/// The arguments from place `i` on.
pub open spec fn gather(values: Seq<Seq<char>>, i: int, g: Gathered) -> GatherModel
    decreases values.len() - i,
{
    if i < 0 || i >= values.len() {
        match g.url {
            Some(url) => GatherModel::Run { url, keep: g.keep, compact: g.compact },
            None => GatherModel::Failed { message: USAGE@ },
        }
    } else if values[i] == "-h"@ || values[i] == "--help"@ {
        GatherModel::Help
    } else if values[i] == "--compact"@ {
        gather(values, i + 1, Gathered { compact: true, ..g })
    } else if values[i] == "--keep-output"@ {
        if i + 1 < values.len() {
            gather(values, i + 2, Gathered { keep: Some(values[i + 1]), ..g })
        } else {
            GatherModel::Failed { message: "--keep-output requires a directory"@ }
        }
    } else if starts_with(values[i], "-"@) {
        GatherModel::Failed { message: "unknown option: "@ + values[i] }
    } else if g.url is Some {
        GatherModel::Failed { message: USAGE@ }
    } else {
        gather(values, i + 1, Gathered { url: Some(values[i]), ..g })
    }
}

pub open spec fn text_of(t: Option<String>) -> Option<Seq<char>> {
    match t {
        Some(s) => Some(s@),
        None => None,
    }
}

impl ArgsResult {
    pub open spec fn is(&self, model: GatherModel) -> bool {
        match (*self, model) {
            (ArgsResult::Run { args }, GatherModel::Run { url, keep, compact }) => args.url@ == url
                && text_of(args.keep_output_dir) == keep && args.compact == compact,
            (ArgsResult::Help, GatherModel::Help) => true,
            (ArgsResult::Failed { message }, GatherModel::Failed { message: m }) => message@ == m,
            _ => false,
        }
    }
}

impl Args {
    /// Read the arguments behind the program's name.
    pub fn parse(values: &Vec<String>) -> (r: ArgsResult)
        ensures
            r.is(gather(views(values@), 0, Gathered { url: None, keep: None, compact: false })),
    {
        let ghost all = views(values@);
        let ghost goal = gather(all, 0, Gathered { url: None, keep: None, compact: false });
        let mut url: Option<String> = None;
        let mut keep: Option<String> = None;
        let mut compact = false;
        let mut i: usize = 0;
        while i < values.len()
            invariant
                i <= values@.len(),
                all == views(values@),
                goal == gather(all, 0, Gathered { url: None, keep: None, compact: false }),
                goal == gather(
                    all,
                    i as int,
                    Gathered { url: text_of(url), keep: text_of(keep), compact },
                ),
            decreases values@.len() - i,
        {
            let arg = values[i].as_str();
            assert(all[i as int] == arg@);
            if same(arg, "-h") || same(arg, "--help") {
                return ArgsResult::Help;
            }
            if same(arg, "--compact") {
                compact = true;
                i = i + 1;
            } else if same(arg, "--keep-output") {
                if i + 1 >= values.len() {
                    return ArgsResult::Failed {
                        message: "--keep-output requires a directory".to_owned(),
                    };
                }
                assert(all[i + 1] == values@[i + 1]@);
                keep = Some(values[i + 1].clone());
                i = i + 2;
            } else if str_starts_with(arg, "-") {
                let mut message = "unknown option: ".to_owned();
                message.append(arg);
                return ArgsResult::Failed { message };
            } else {
                if url.is_some() {
                    return ArgsResult::Failed { message: USAGE.to_owned() };
                }
                url = Some(arg.to_owned());
                i = i + 1;
            }
        }
        match url {
            Some(url) => ArgsResult::Run { args: Args { url, keep_output_dir: keep, compact } },
            None => ArgsResult::Failed { message: USAGE.to_owned() },
        }
    }
}

/// The one link of the probe's input.
pub fn single_link(links: &TweetLinks) -> (r: Result<TweetLink, &'static str>)
    ensures
        links@.len() == 0 ==> (r matches Err(e) && e@
            == "probe input must contain one supported Twitter/X URL"@),
        links@.len() == 1 ==> r == Ok::<TweetLink, &'static str>(links@[0]),
        links@.len() > 1 ==> (r matches Err(e) && e@
            == "probe input must contain exactly one Twitter/X URL"@),
{
    match lone_link(links) {
        LoneLink::Absent => Err("probe input must contain one supported Twitter/X URL"),
        LoneLink::One { link } => Ok(link),
        LoneLink::Several => Err("probe input must contain exactly one Twitter/X URL"),
    }
}

/// Read the probe's input.
pub fn parse_single_url(input: &str) -> (r: Result<TweetLink, &'static str>)
    ensures
        ({
            let found = captured_links(tweet_url_captures(input@));
            &&& found.len() == 0 ==> (r matches Err(e) && e@
                == "probe input must contain one supported Twitter/X URL"@)
            &&& found.len() == 1 ==> (r matches Ok(link) && link.wf() && link_model(link)
                == found[0])
            &&& found.len() > 1 ==> (r matches Err(e) && e@
                == "probe input must contain exactly one Twitter/X URL"@)
        }),
{
    let links = parse_tweet_urls(input);
    assert(link_models(links@).len() == links@.len());
    if links.len() == 1 {
        assert(link_models(links@)[0] == link_model(links@[0]));
    }
    single_link(&links)
}

/// One entry of the probe's progress log.
#[derive(Debug)]
pub struct ProgressEvent {
    pub elapsed_ms: u64,
    pub stage: &'static str,
    pub message: String,
    pub done: Option<usize>,
    pub total: Option<usize>,
}

pub open spec fn stage_label(progress: Progress) -> Seq<char> {
    match progress {
        Progress::Resolving => "resolving"@,
        Progress::Downloading => "downloading"@,
        Progress::Optimizing => "optimizing"@,
        Progress::Transcoding(_, _) => "transcoding"@,
        Progress::Uploading => "uploading"@,
        Progress::UploadingSegment(_, _) => "uploading_segment"@,
    }
}

pub open spec fn stage_counts(progress: Progress) -> (Option<usize>, Option<usize>) {
    match progress {
        Progress::Transcoding(done, total) => (Some(done), Some(total)),
        Progress::UploadingSegment(done, total) => (Some(done), Some(total)),
        _ => (None, None),
    }
}

impl ProgressEvent {
    pub fn from_progress(elapsed_ms: u64, progress: Progress) -> (r: Self)
        ensures
            r.elapsed_ms == elapsed_ms,
            r.stage@ == stage_label(progress),
            r.message@ == progress.text(),
            (r.done, r.total) == stage_counts(progress),
    {
        let message = progress.message();
        let (stage, done, total): (&'static str, Option<usize>, Option<usize>) = match progress {
            Progress::Resolving => ("resolving", None, None),
            Progress::Downloading => ("downloading", None, None),
            Progress::Optimizing => ("optimizing", None, None),
            Progress::Transcoding(done, total) => ("transcoding", Some(done), Some(total)),
            Progress::Uploading => ("uploading", None, None),
            Progress::UploadingSegment(done, total) => (
                "uploading_segment",
                Some(done),
                Some(total),
            ),
        };
        ProgressEvent { elapsed_ms, stage, message, done, total }
    }
}

/// A part could not be copied to where it is kept.
pub fn keep_context(from: &str, to: &str) -> (s: String)
    ensures
        s@ == "failed to copy probe output "@ + from@ + " to "@ + to@,
{
    let mut s = "failed to copy probe output ".to_owned();
    s.append(from);
    s.append(" to ");
    s.append(to);
    s
}

/// The name of a kept part, numbered from one.
pub fn kept_file_name(tweet_id: u64, index: usize, extension: Option<&str>) -> (s: String)
    ensures
        s@ == "azalea-probe-"@ + decimal(tweet_id as nat) + "-part-"@ + decimal(index as nat)
            + "."@ + (match extension {
            Some(e) => if e@.len() > 0 {
                e@
            } else {
                "bin"@
            },
            None => "bin"@,
        }),
{
    let mut s = "azalea-probe-".to_owned();
    s.append(decimal_of(tweet_id).as_str());
    s.append("-part-");
    s.append(decimal_of(index as u64).as_str());
    s.append(".");
    match extension {
        Some(e) => {
            if e.is_empty() {
                s.append("bin");
            } else {
                s.append(e);
            }
        },
        None => {
            s.append("bin");
        },
    }
    s
}

// ---------------------------------------------------------------------------
// What arguments mean
// ---------------------------------------------------------------------------
proof fn lemma_gather_shifts(head: Seq<Seq<char>>, rest: Seq<Seq<char>>, i: int, g: Gathered)
    requires
        0 <= i,
    ensures
        gather(head + rest, head.len() + i, g) == gather(rest, i, g),
    decreases rest.len() - i,
{
    let all = head + rest;
    if i < rest.len() {
        assert(all[head.len() + i] == rest[i]);
        if i + 1 < rest.len() {
            assert(all[head.len() + i + 1] == rest[i + 1]);
            lemma_gather_shifts(head, rest, i + 2, Gathered { keep: Some(rest[i + 1]), ..g });
        }
        lemma_gather_shifts(head, rest, i + 1, Gathered { compact: true, ..g });
        lemma_gather_shifts(head, rest, i + 1, Gathered { url: Some(rest[i]), ..g });
    }
}

/// Each option changes one thing and the rest is read as without it: a compact
/// report, a directory to keep the files in, the link, of which there is one.
pub proof fn lemma_arguments_change_one_thing(
    rest: Seq<Seq<char>>,
    dir: Seq<char>,
    link: Seq<char>,
    g: Gathered,
)
    requires
        link.len() == 0 || link[0] != '-',
    ensures
        gather(seq!["--compact"@] + rest, 0, g) == gather(rest, 0, Gathered { compact: true, ..g }),
        gather(seq!["--keep-output"@, dir] + rest, 0, g) == gather(
            rest,
            0,
            Gathered { keep: Some(dir), ..g },
        ),
        gather(seq!["-h"@] + rest, 0, g) is Help,
        gather(seq!["--help"@] + rest, 0, g) is Help,
        g.url is None ==> gather(seq![link] + rest, 0, g) == gather(
            rest,
            0,
            Gathered { url: Some(link), ..g },
        ),
        g.url is Some ==> gather(seq![link] + rest, 0, g) is Failed,
        gather(seq!["--keep-output"@], 0, g) is Failed,
        gather(Seq::empty(), 0, g) is Failed <==> g.url is None,
        g.url is Some ==> gather(Seq::empty(), 0, g) == (GatherModel::Run {
            url: g.url->0,
            keep: g.keep,
            compact: g.compact,
        }),
{
    reveal_strlit("-h");
    reveal_strlit("--help");
    reveal_strlit("--compact");
    reveal_strlit("--keep-output");
    reveal_strlit("-");
    assert("-h"@.len() == 2);
    assert("--help"@.len() == 6);
    assert("--compact"@.len() == 9);
    assert("--keep-output"@.len() == 13);
    assert("-"@.len() == 1);
    let a = seq!["--compact"@];
    lemma_gather_shifts(a, rest, 0, Gathered { compact: true, ..g });
    assert((a + rest)[0] == a[0]);
    let b = seq!["--keep-output"@, dir];
    lemma_gather_shifts(b, rest, 0, Gathered { keep: Some(dir), ..g });
    assert((b + rest)[0] == b[0] && (b + rest)[1] == b[1]);
    let c = seq![link];
    lemma_gather_shifts(c, rest, 0, Gathered { url: Some(link), ..g });
    assert((c + rest)[0] == c[0]);
    if starts_with(link, "-"@) {
        assert(link.take(1)[0] == "-"@[0]);
    }
    assert(link != "-h"@ && link != "--help"@ && link != "--compact"@ && link != "--keep-output"@)
        by {
        assert("-h"@[0] == '-' && "--help"@[0] == '-' && "--compact"@[0] == '-'
            && "--keep-output"@[0] == '-');
    }
    assert((seq!["-h"@] + rest)[0] == "-h"@);
    assert((seq!["--help"@] + rest)[0] == "--help"@);
}

/// Each stage is reported under a name of its own, with its numbers where it
/// counts segments.
pub proof fn lemma_stages_are_reported_apart(progress: Progress)
    ensures
        stage_label(progress) == "resolving"@ <==> progress is Resolving,
        stage_label(progress) == "downloading"@ <==> progress is Downloading,
        stage_label(progress) == "optimizing"@ <==> progress is Optimizing,
        stage_label(progress) == "transcoding"@ <==> progress is Transcoding,
        stage_label(progress) == "uploading"@ <==> progress is Uploading,
        stage_label(progress) == "uploading_segment"@ <==> progress is UploadingSegment,
        progress matches Progress::Transcoding(done, total) ==> stage_counts(progress) == (
            Some(done),
            Some(total),
        ),
        progress matches Progress::UploadingSegment(done, total) ==> stage_counts(progress) == (
            Some(done),
            Some(total),
        ),
        !(progress is Transcoding) && !(progress is UploadingSegment) ==> stage_counts(progress).0
            is None && stage_counts(progress).1 is None,
{
    reveal_strlit("resolving");
    reveal_strlit("downloading");
    reveal_strlit("optimizing");
    reveal_strlit("transcoding");
    reveal_strlit("uploading");
    reveal_strlit("uploading_segment");
    assert("resolving"@.len() == 9);
    assert("downloading"@.len() == 11);
    assert("optimizing"@.len() == 10);
    assert("transcoding"@.len() == 11);
    assert("uploading"@.len() == 9);
    assert("uploading_segment"@.len() == 17);
    assert("resolving"@[0] != "uploading"@[0]);
    assert("downloading"@[0] != "transcoding"@[0]);
}

/// What the arguments ask for is what was read of them.
pub proof fn lemma_asked_for_is_what_was_read(r: ArgsResult, model: GatherModel)
    requires
        r.is(model),
    ensures
        r is Help <==> model is Help,
        r is Run <==> model is Run,
        r matches ArgsResult::Failed { message } ==> model == (GatherModel::Failed {
            message: message@,
        }),
        r matches ArgsResult::Run { args } ==> (model matches GatherModel::Run { url, keep, compact }
            && url == args.url@ && compact == args.compact && (keep is Some
            <==> args.keep_output_dir is Some) && (args.keep_output_dir matches Some(dir) ==> keep
            == Some(dir@))),
{
}

} // verus!
