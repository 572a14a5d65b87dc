//! Decisions of one favourite-list updater: which videos to download, with which
//! downloader arguments, what is logged, and which source id the stored videos get.
//!
//! The program around it fetches the list, queries the database and runs the
//! downloader; it feeds each result back here and performs the action returned.

use vstd::prelude::*;
use vstd::string::*;

use crate::config::Config;
use crate::text::{
    decimal, decimal_string, join_spaces, lemma_decimal_injective, lemma_join_split, split_on_spaces, split_spaces,
    views,
};

verus! {

/// One entry of a favourite list, with the fields the updater reads.
#[derive(Debug, PartialEq, Eq)]
pub struct FavEntry {
    pub title: String,
    /// Video id (`BV...`).
    pub bvid: String,
    /// Media type: 2 video, 12 audio, 21 collection.
    pub media_type: u8,
    /// Availability: 0 available, 1 removed for other reasons, 9 removed by the uploader.
    pub attr: u8,
}

/// The reason an entry with availability `attr` is unusable.
pub open spec fn unusable_reason(title: Seq<char>, attr: u8) -> Seq<char> {
    if attr == 1 {
        title + " 已被其他原因删除！"@
    } else if attr == 9 {
        title + " 已被 Up 自己删除！"@
    } else {
        "未知错误！"@
    }
}

/// `bili_core::fav::FavContent::validate`, applied to an entry with these fields.
/// As its source shows, it accepts availability 0; it rejects 1 and 9 with a
/// message that names the title and the cause, and any other value with a fixed
/// message.
#[verifier::external_body]
fn validate_entry(entry: &FavEntry) -> (r: Result<(), String>)
    ensures
        r is Ok <==> entry.attr == 0,
        r matches Err(msg) ==> msg@ == unusable_reason(entry.title@, entry.attr),
{
    let content = bili_core::fav::FavContent {
        title: entry.title.clone(),
        bvid: entry.bvid.clone(),
        type_: entry.media_type,
        attr: entry.attr,
    };
    content.validate()
}

/// Address of a video page.
pub open spec fn video_link_spec(bvid: Seq<char>) -> Seq<char> {
    "https://www.bilibili.com/video/"@ + bvid
}

/// The page address of the video `bvid`.
pub fn video_link(bvid: &str) -> (link: String)
    ensures
        link@ == video_link_spec(bvid@),
{
    String::from_str("https://www.bilibili.com/video/").concat(bvid)
}

/// The error for a failed download quotes the link in double quotes and then says
/// that the download failed.
pub proof fn lemma_download_failure_shape(link: Seq<char>)
    ensures
        download_failure(link).len() == link.len() + 7,
        download_failure(link)[0] == '"',
        download_failure(link).subrange(1, link.len() as int + 1) == link,
        download_failure(link).skip(link.len() as int + 1) == "\" 下载失败"@,
{
    reveal_strlit("\"");
    reveal_strlit("\" 下载失败");
    let m = download_failure(link);
    assert(m.subrange(1, link.len() as int + 1) =~= link);
    assert(m.skip(link.len() as int + 1) =~= "\" 下载失败"@);
}

/// A video's page link is the page prefix followed by the video id, character for
/// character.
pub proof fn lemma_video_link_shape(bvid: Seq<char>)
    ensures
        video_link_spec(bvid).len() == 31 + bvid.len(),
        video_link_spec(bvid).take(31) == "https://www.bilibili.com/video/"@,
        video_link_spec(bvid).skip(31) == bvid,
{
    reveal_strlit("https://www.bilibili.com/video/");
    let prefix = "https://www.bilibili.com/video/"@;
    assert(prefix.len() == 31);
    assert(video_link_spec(bvid).take(31) =~= prefix);
    assert(video_link_spec(bvid).skip(31) =~= bvid);
}

/// Error reported when the downloader fails on `link`.
pub open spec fn download_failure(link: Seq<char>) -> Seq<char> {
    "\""@ + link + "\" 下载失败"@
}

/// How one entry ended.
#[derive(Debug, PartialEq, Eq)]
pub enum ItemOutcome {
    /// Downloaded and recorded now.
    New,
    /// Already recorded earlier: nothing done.
    Known,
    /// The download or a database step failed, with this message.
    Failed(String),
}

/// Where the handling of one entry stands.
#[derive(Debug, Clone, Copy, PartialEq, Eq, Structural)]
pub enum ItemStage {
    /// Waiting to learn whether the link is already recorded.
    Checking,
    /// Waiting for the downloader to finish.
    Downloading,
    /// Waiting for the video to be recorded.
    Recording,
    /// Done.
    Finished,
}

/// A result reported back by the program.
#[derive(Debug, Clone, Copy, PartialEq, Eq, Structural)]
pub enum ItemEvent {
    /// Whether the link is already recorded.
    Stored(bool),
    /// Whether the downloader succeeded.
    Downloaded(bool),
    /// The video has been recorded.
    Recorded,
}

/// What the program is to do next for an entry.
#[derive(Debug, PartialEq, Eq)]
pub enum ItemAction {
    /// Run the downloader on the job's link.
    Download,
    /// Record the job's link and title under the current source id.
    Record,
    /// Stop: the entry ended so.
    Finish(ItemOutcome),
}

/// Whether `event` is a possible answer in `stage`.
pub open spec fn accepts(stage: ItemStage, event: ItemEvent) -> bool {
    match stage {
        ItemStage::Checking => event is Stored,
        ItemStage::Downloading => event is Downloaded,
        ItemStage::Recording => event is Recorded,
        ItemStage::Finished => false,
    }
}

/// The stage reached by an accepted event.
pub open spec fn next_stage(event: ItemEvent) -> ItemStage {
    match event {
        ItemEvent::Stored(true) => ItemStage::Finished,
        ItemEvent::Stored(false) => ItemStage::Downloading,
        ItemEvent::Downloaded(true) => ItemStage::Recording,
        ItemEvent::Downloaded(false) => ItemStage::Finished,
        ItemEvent::Recorded => ItemStage::Finished,
    }
}

/// The action an accepted event calls for, on the job's `link`.
pub open spec fn action_for(event: ItemEvent, link: Seq<char>, action: ItemAction) -> bool {
    match event {
        ItemEvent::Stored(true) => action == ItemAction::Finish(ItemOutcome::Known),
        ItemEvent::Stored(false) => action == ItemAction::Download,
        ItemEvent::Downloaded(true) => action == ItemAction::Record,
        ItemEvent::Downloaded(false) => action matches ItemAction::Finish(ItemOutcome::Failed(m))
            && m@ == download_failure(link),
        ItemEvent::Recorded => action == ItemAction::Finish(ItemOutcome::New),
    }
}

/// The stage after a run of events from the start, or `None` when one of them
/// was not a possible answer.
pub open spec fn run_stage(events: Seq<ItemEvent>) -> Option<ItemStage>
    decreases events.len(),
{
    if events.len() == 0 {
        Some(ItemStage::Checking)
    } else {
        match run_stage(events.drop_last()) {
            Some(stage) => if accepts(stage, events.last()) {
                Some(next_stage(events.last()))
            } else {
                None
            },
            None => None,
        }
    }
}

/// The handling of one usable entry of a favourite list.
pub struct ItemJob {
    link: String,
    title: String,
    stage: ItemStage,
}

impl ItemJob {
    /// Page address of the video.
    pub closed spec fn link_view(&self) -> Seq<char> {
        self.link@
    }

    /// Title of the video.
    pub closed spec fn title_view(&self) -> Seq<char> {
        self.title@
    }

    /// Where the job stands.
    pub closed spec fn stage_view(&self) -> ItemStage {
        self.stage
    }

    /// Page address of the video.
    pub fn link(&self) -> (link: &str)
        ensures
            link@ == self.link_view(),
    {
        self.link.as_str()
    }

    /// Title of the video.
    pub fn title(&self) -> (title: &str)
        ensures
            title@ == self.title_view(),
    {
        self.title.as_str()
    }

    /// Where the job stands.
    pub fn stage(&self) -> (stage: ItemStage)
        ensures
            stage == self.stage_view(),
    {
        self.stage
    }
    /// Starts handling `entry`: an unusable entry is refused with the reason;
    /// otherwise the job waits to learn whether the video's link is recorded.
    pub fn begin(entry: &FavEntry) -> (r: Result<ItemJob, String>)
        ensures
            r is Ok <==> entry.attr == 0,
            r matches Err(msg) ==> msg@ == unusable_reason(entry.title@, entry.attr),
            r matches Ok(job) ==> job.link_view() == video_link_spec(entry.bvid@) && job.title_view()
                == entry.title@ && job.stage_view() == ItemStage::Checking,
    {
        match validate_entry(entry) {
            Err(msg) => Err(msg),
            Ok(()) => {
                let link = video_link(entry.bvid.as_str());
                let title = entry.title.clone();
                Ok(ItemJob { link, title, stage: ItemStage::Checking })
            },
        }
    }

    /// Advances on the program's answer. A recorded link ends the job as known; an
    /// unrecorded one is downloaded; a successful download is recorded and then
    /// ends the job as new; a failed download ends it with an error naming the link.
    pub fn step(&mut self, event: ItemEvent) -> (action: ItemAction)
        requires
            accepts(old(self).stage_view(), event),
        ensures
            final(self).stage_view() == next_stage(event),
            final(self).link_view() == old(self).link_view(),
            final(self).title_view() == old(self).title_view(),
            action_for(event, old(self).link_view(), action),
    {
        match event {
            ItemEvent::Stored(true) => {
                self.stage = ItemStage::Finished;
                ItemAction::Finish(ItemOutcome::Known)
            },
            ItemEvent::Stored(false) => {
                self.stage = ItemStage::Downloading;
                ItemAction::Download
            },
            ItemEvent::Downloaded(true) => {
                self.stage = ItemStage::Recording;
                ItemAction::Record
            },
            ItemEvent::Downloaded(false) => {
                self.stage = ItemStage::Finished;
                let msg = String::from_str("\"").concat(self.link.as_str()).concat("\" 下载失败");
                ItemAction::Finish(ItemOutcome::Failed(msg))
            },
            ItemEvent::Recorded => {
                self.stage = ItemStage::Finished;
                ItemAction::Finish(ItemOutcome::New)
            },
        }
    }
}

/// Every run of answers that the job accepts is one of six: nothing yet, known,
/// unrecorded, unrecorded then failed, unrecorded then downloaded, and unrecorded,
/// downloaded and recorded.
pub proof fn lemma_item_runs(events: Seq<ItemEvent>)
    requires
        run_stage(events) is Some,
    ensures
        events.len() <= 3,
        events.len() >= 1 ==> events[0] is Stored,
        events.len() >= 2 ==> events[0] == ItemEvent::Stored(false) && events[1] is Downloaded,
        events.len() == 3 ==> events[1] == ItemEvent::Downloaded(true) && events[2] == ItemEvent::Recorded,
        run_stage(events) == Some(ItemStage::Recording) ==> events == seq![
            ItemEvent::Stored(false),
            ItemEvent::Downloaded(true),
        ],
        run_stage(events) == Some(ItemStage::Downloading) ==> events == seq![ItemEvent::Stored(false)],
    decreases events.len(),
{
    if events.len() > 0 {
        let prev = events.drop_last();
        lemma_item_runs(prev);
        if prev.len() == 0 {
            assert(events == seq![events[0]]);
        } else if prev.len() == 1 {
            assert(events =~= seq![prev[0], events.last()]);
        } else if prev.len() == 2 {
            assert(events =~= seq![prev[0], prev[1], events.last()]);
        }
    }
}

/// A video whose link is already recorded is never downloaded: once the answer to
/// the first question is "recorded", the job takes no further answer.
pub proof fn lemma_recorded_never_downloaded(events: Seq<ItemEvent>)
    requires
        run_stage(events) is Some,
        events.len() >= 1,
        events[0] == ItemEvent::Stored(true),
    ensures
        events.len() == 1,
        run_stage(events) == Some(ItemStage::Finished),
{
    lemma_item_runs(events);
    if events.len() == 1 {
        assert(events.drop_last() =~= Seq::<ItemEvent>::empty());
    }
}

/// A job reaches the recording step only when the video was not recorded before and
/// the downloader succeeded; every run that records ends the job as new.
pub proof fn lemma_new_only_after_download(events: Seq<ItemEvent>)
    requires
        run_stage(events) is Some,
        events.contains(ItemEvent::Recorded),
    ensures
        events == seq![ItemEvent::Stored(false), ItemEvent::Downloaded(true), ItemEvent::Recorded],
        run_stage(events) == Some(ItemStage::Finished),
{
    lemma_item_runs(events);
    let k = choose|k: int| 0 <= k < events.len() && events[k] == ItemEvent::Recorded;
    assert(k == 2);
    assert(events =~= seq![ItemEvent::Stored(false), ItemEvent::Downloaded(true), ItemEvent::Recorded]);
    let p2 = events.drop_last();
    assert(p2 =~= seq![ItemEvent::Stored(false), ItemEvent::Downloaded(true)]);
    assert(p2.drop_last() =~= seq![ItemEvent::Stored(false)]);
    assert(p2.drop_last().drop_last() =~= Seq::<ItemEvent>::empty());
}

/// The answers a store of recorded links gives while one entry with `link` is
/// handled, when it answers truthfully, the downloader succeeds as `download_ok`
/// says, and a recorded link is added to it; and the recorded links afterwards.
pub open spec fn check_against(recorded: Set<Seq<char>>, link: Seq<char>, download_ok: bool) -> (
    Seq<ItemEvent>,
    Set<Seq<char>>,
) {
    if recorded.contains(link) {
        (seq![ItemEvent::Stored(true)], recorded)
    } else if !download_ok {
        (seq![ItemEvent::Stored(false), ItemEvent::Downloaded(false)], recorded)
    } else {
        (seq![ItemEvent::Stored(false), ItemEvent::Downloaded(true), ItemEvent::Recorded], recorded.insert(link))
    }
}

/// The answers of successive checks of an entry with `link`, the `i`-th download
/// succeeding as `download_ok[i]` says, each check starting from the store the one
/// before left.
pub open spec fn repeated_checks(recorded: Set<Seq<char>>, link: Seq<char>, download_ok: Seq<bool>) -> Seq<
    Seq<ItemEvent>,
>
    decreases download_ok.len(),
{
    if download_ok.len() == 0 {
        Seq::empty()
    } else {
        let (events, after) = check_against(recorded, link, download_ok[0]);
        seq![events] + repeated_checks(after, link, download_ok.drop_first())
    }
}

proof fn lemma_runs_finish(events: Seq<ItemEvent>)
    requires
        events == seq![ItemEvent::Stored(true)] || events == seq![ItemEvent::Stored(false), ItemEvent::Downloaded(false)]
            || events == seq![ItemEvent::Stored(false), ItemEvent::Downloaded(true), ItemEvent::Recorded],
    ensures
        run_stage(events) == Some(ItemStage::Finished),
{
    let e1 = seq![ItemEvent::Stored(false)];
    let e2 = seq![ItemEvent::Stored(false), ItemEvent::Downloaded(true)];
    assert(e1.drop_last() =~= Seq::<ItemEvent>::empty());
    assert(seq![ItemEvent::Stored(true)].drop_last() =~= Seq::<ItemEvent>::empty());
    assert(run_stage(Seq::<ItemEvent>::empty()) == Some(ItemStage::Checking));
    assert(run_stage(e1) == Some(ItemStage::Downloading));
    assert(e2.drop_last() =~= e1);
    assert(run_stage(e2) == Some(ItemStage::Recording));
    if events.len() == 2 {
        assert(events.drop_last() =~= e1);
    } else if events.len() == 3 {
        assert(events.drop_last() =~= e2);
    }
}

/// One check against a truthful store: the job takes every answer and finishes; a
/// recorded link is answered "recorded" and neither downloaded nor stored again;
/// the link ends up recorded exactly when it was before or was downloaded now.
pub proof fn lemma_check_against(recorded: Set<Seq<char>>, link: Seq<char>, download_ok: bool)
    ensures
        ({
            let (events, after) = check_against(recorded, link, download_ok);
            &&& run_stage(events) == Some(ItemStage::Finished)
            &&& recorded.contains(link) ==> events == seq![ItemEvent::Stored(true)] && after == recorded
            &&& recorded.subset_of(after)
            &&& after.contains(link) == (recorded.contains(link) || download_ok)
            &&& events.contains(ItemEvent::Recorded) ==> !recorded.contains(link)
            &&& recorded.contains(link) ==> action_for(events[0], link, ItemAction::Finish(ItemOutcome::Known))
        }),
{
    let (events, after) = check_against(recorded, link, download_ok);
    lemma_runs_finish(events);
    if events.contains(ItemEvent::Recorded) && recorded.contains(link) {
        let k = choose|k: int| 0 <= k < events.len() && events[k] == ItemEvent::Recorded;
        assert(events[0] == ItemEvent::Stored(true));
    }
}

proof fn lemma_recorded_checks(recorded: Set<Seq<char>>, link: Seq<char>, download_ok: Seq<bool>)
    requires
        recorded.contains(link),
    ensures
        repeated_checks(recorded, link, download_ok).len() == download_ok.len(),
        forall|j: int| 0 <= j < download_ok.len() ==> #[trigger] repeated_checks(recorded, link, download_ok)[j]
            == seq![ItemEvent::Stored(true)],
    decreases download_ok.len(),
{
    if download_ok.len() > 0 {
        let rest = download_ok.drop_first();
        lemma_recorded_checks(recorded, link, rest);
        let runs = repeated_checks(recorded, link, download_ok);
        assert forall|j: int| 0 <= j < download_ok.len() implies #[trigger] runs[j] == seq![ItemEvent::Stored(true)] by {
            if j > 0 {
                assert(runs[j] == repeated_checks(recorded, link, rest)[j - 1]);
            }
        }
    }
}

/// A video is downloaded and recorded at most once: over successive checks of the
/// same entry against a truthful store, every check takes all its answers and
/// finishes, and once one check has recorded the video every later check is
/// answered "recorded", so it ends as known without a download.
pub proof fn lemma_repeated_checks(recorded: Set<Seq<char>>, link: Seq<char>, download_ok: Seq<bool>)
    ensures
        repeated_checks(recorded, link, download_ok).len() == download_ok.len(),
        forall|i: int| 0 <= i < download_ok.len() ==> run_stage(#[trigger] repeated_checks(recorded, link, download_ok)[i])
            == Some(ItemStage::Finished),
        forall|i: int, j: int| 0 <= i < j < download_ok.len()
            && (#[trigger] repeated_checks(recorded, link, download_ok)[i]).contains(ItemEvent::Recorded)
            ==> #[trigger] repeated_checks(recorded, link, download_ok)[j] == seq![ItemEvent::Stored(true)],
    decreases download_ok.len(),
{
    if download_ok.len() > 0 {
        let (events, after) = check_against(recorded, link, download_ok[0]);
        let rest = download_ok.drop_first();
        let runs = repeated_checks(recorded, link, download_ok);
        let tail = repeated_checks(after, link, rest);
        lemma_check_against(recorded, link, download_ok[0]);
        lemma_repeated_checks(after, link, rest);
        assert(runs =~= seq![events] + tail);
        if events.contains(ItemEvent::Recorded) {
            lemma_recorded_checks(after, link, rest);
        }
        assert forall|i: int| 0 <= i < download_ok.len() implies run_stage(#[trigger] runs[i]) == Some(
            ItemStage::Finished,
        ) by {
            if i > 0 {
                assert(runs[i] == tail[i - 1]);
            }
        }
        assert forall|i: int, j: int| 0 <= i < j < download_ok.len() && (#[trigger] runs[i]).contains(
            ItemEvent::Recorded,
        ) implies #[trigger] runs[j] == seq![ItemEvent::Stored(true)] by {
            assert(runs[j] == tail[j - 1]);
            if i > 0 {
                assert(runs[i] == tail[i - 1]);
            } else {
                assert(runs[0] == events);
            }
        }
    }
}

/// Text appended to a file.
#[derive(Debug, PartialEq, Eq)]
pub struct LogWrite {
    /// File to append to.
    pub path: String,
    /// Text to append.
    pub text: String,
}

impl View for LogWrite {
    type V = (Seq<char>, Seq<char>);

    open spec fn view(&self) -> (Seq<char>, Seq<char>) {
        (self.path@, self.text@)
    }
}

/// The views of a list of appends.
pub open spec fn write_views(v: Seq<LogWrite>) -> Seq<(Seq<char>, Seq<char>)> {
    v.map_values(|w: LogWrite| w@)
}

/// The append that records one non-empty output stream of the downloader.
pub open spec fn stream_write(title: Seq<char>, stream: Seq<char>, line: Seq<char>, out: Seq<char>) -> Seq<
    (Seq<char>, Seq<char>),
> {
    if out.len() == 0 {
        Seq::empty()
    } else {
        seq![("config/log/"@ + stream + "_"@ + title + ".log"@, line + "\n"@ + out + "\n"@)]
    }
}

/// What a downloader run leaves in the log directory of list `title`: its standard
/// output and its error output, each in a file of its own and only when not empty,
/// after the line naming the list and the video.
pub open spec fn command_log_spec(title: Seq<char>, link: Seq<char>, stdout: Seq<char>, stderr: Seq<char>) -> Seq<
    (Seq<char>, Seq<char>),
> {
    let line = title + ": "@ + link;
    stream_write(title, "stdout"@, line, stdout) + stream_write(title, "stderr"@, line, stderr)
}

fn push_stream(writes: &mut Vec<LogWrite>, title: &str, stream: &str, line: &str, out: &str)
    ensures
        write_views(final(writes)@) == write_views(old(writes)@) + stream_write(title@, stream@, line@, out@),
{
    if !out.is_empty() {
        let path = String::from_str("config/log/").concat(stream).concat("_").concat(title).concat(".log");
        let text = String::from_str(line).concat("\n").concat(out).concat("\n");
        let ghost before = writes@;
        writes.push(LogWrite { path, text });
        assert(write_views(writes@) =~= write_views(before) + stream_write(title@, stream@, line@, out@));
    } else {
        assert(write_views(writes@) =~= write_views(writes@) + stream_write(title@, stream@, line@, out@));
    }
}

/// Both output streams are logged independently of each other: the appends for a
/// run are those for its standard output alone followed by those for its error
/// output alone; there is one append per non-empty stream, the standard output
/// going to `config/log/stdout_<title>.log` and the error output to
/// `config/log/stderr_<title>.log`, each after the line naming the list and video.
pub proof fn lemma_command_log_streams(title: Seq<char>, link: Seq<char>, stdout: Seq<char>, stderr: Seq<char>)
    ensures
        command_log_spec(title, link, stdout, stderr) == command_log_spec(title, link, stdout, Seq::empty())
            + command_log_spec(title, link, Seq::empty(), stderr),
        command_log_spec(title, link, stdout, stderr).len() == (if stdout.len() > 0 {
            1int
        } else {
            0int
        }) + (if stderr.len() > 0 {
            1int
        } else {
            0int
        }),
        stdout.len() > 0 ==> command_log_spec(title, link, stdout, stderr)[0] == (
            "config/log/stdout_"@ + title + ".log"@,
            title + ": "@ + link + "\n"@ + stdout + "\n"@,
        ),
        stderr.len() > 0 ==> command_log_spec(title, link, stdout, stderr).last() == (
            "config/log/stderr_"@ + title + ".log"@,
            title + ": "@ + link + "\n"@ + stderr + "\n"@,
        ),
{
    reveal_strlit("config/log/");
    reveal_strlit("stdout");
    reveal_strlit("stderr");
    reveal_strlit("_");
    reveal_strlit("config/log/stdout_");
    reveal_strlit("config/log/stderr_");
    let line = title + ": "@ + link;
    let e = Seq::<char>::empty();
    assert("config/log/"@ + "stdout"@ + "_"@ =~= "config/log/stdout_"@);
    assert("config/log/"@ + "stderr"@ + "_"@ =~= "config/log/stderr_"@);
    assert("config/log/"@ + "stdout"@ + "_"@ + title + ".log"@ =~= "config/log/stdout_"@ + title + ".log"@);
    assert("config/log/"@ + "stderr"@ + "_"@ + title + ".log"@ =~= "config/log/stderr_"@ + title + ".log"@);
    assert(stream_write(title, "stdout"@, line, e) =~= Seq::empty());
    assert(stream_write(title, "stderr"@, line, e) =~= Seq::empty());
    assert(command_log_spec(title, link, stdout, e) =~= stream_write(title, "stdout"@, line, stdout));
    assert(command_log_spec(title, link, e, stderr) =~= stream_write(title, "stderr"@, line, stderr));
}

/// The arguments `-c <token>` when a login token is known.
pub open spec fn token_args(sessdata: Option<Seq<char>>) -> Seq<Seq<char>> {
    match sessdata {
        Some(t) => seq!["-c"@, t],
        None => Seq::empty(),
    }
}

/// The downloader's arguments: the configured options split on single spaces, the
/// login token when known, the target directory under `downloads/`, and the link.
pub open spec fn downloader_args_spec(
    option: Seq<char>,
    sessdata: Option<Seq<char>>,
    path: Seq<char>,
    link: Seq<char>,
) -> Seq<Seq<char>> {
    split_spaces(option) + token_args(sessdata) + seq!["-d"@, "downloads/"@ + path, link]
}

/// The downloader's arguments are the option pieces, then `-c` and the token when
/// a token is known, then always `-d`, `downloads/` followed by the configured
/// path, and the link last.
pub proof fn lemma_downloader_args_shape(
    option: Seq<char>,
    sessdata: Option<Seq<char>>,
    path: Seq<char>,
    link: Seq<char>,
)
    ensures
        ({
            let args = downloader_args_spec(option, sessdata, path, link);
            let k = split_spaces(option).len() as int;
            &&& args.len() == k + 3 + if sessdata is Some {
                2int
            } else {
                0int
            }
            &&& args.take(k) == split_spaces(option)
            &&& args[args.len() - 3] == "-d"@
            &&& args[args.len() - 2] == "downloads/"@ + path
            &&& args[args.len() - 1] == link
            &&& sessdata matches Some(t) ==> args[k] == "-c"@ && args[k + 1] == t
        }),
{
    let args = downloader_args_spec(option, sessdata, path, link);
    let k = split_spaces(option).len() as int;
    assert(args.take(k) =~= split_spaces(option));
}

/// The program that downloads the videos.
pub const DOWNLOADER: &'static str = "yutto";

/// The state one updater keeps between checks of its list.
pub struct UpdaterState {
    feed: Config,
    fav_title: String,
    source_id: Option<u32>,
}

/// The decimal id of a list, under which it is recorded as a source.
pub open spec fn source_link(fav_id: u64) -> Seq<char> {
    decimal(fav_id as nat)
}

/// Different lists are recorded as sources under different links.
pub proof fn lemma_source_links_distinct(a: u64, b: u64)
    requires
        a != b,
    ensures
        source_link(a) != source_link(b),
{
    if source_link(a) == source_link(b) {
        lemma_decimal_injective(a as nat, b as nat);
    }
}

/// The message summing up one check of list `title`.
pub open spec fn report_spec(title: Seq<char>, updated: bool) -> Seq<char> {
    title + " "@ + if updated {
        "更新完成"@
    } else {
        "没有更新"@
    }
}

/// The summary is the list's title, a space, and a status word that depends only on
/// whether some video was new: "更新完成" then, "没有更新" otherwise, whatever the
/// title; the two words differ.
pub proof fn lemma_report_shape(title: Seq<char>, updated: bool)
    ensures
        report_spec(title, updated).take(title.len() as int) == title,
        report_spec(title, updated)[title.len() as int] == ' ',
        report_spec(title, updated).skip(title.len() as int + 1) == if updated {
            "更新完成"@
        } else {
            "没有更新"@
        },
        forall|other: Seq<char>| #[trigger] report_spec(other, updated).skip(other.len() as int + 1)
            == report_spec(title, updated).skip(title.len() as int + 1),
        report_spec(title, true) != report_spec(title, false),
{
    reveal_strlit(" ");
    reveal_strlit("更新完成");
    reveal_strlit("没有更新");
    let word = if updated {
        "更新完成"@
    } else {
        "没有更新"@
    };
    assert(report_spec(title, updated).take(title.len() as int) =~= title);
    assert(report_spec(title, updated).skip(title.len() as int + 1) =~= word);
    assert forall|other: Seq<char>| #[trigger] report_spec(other, updated).skip(other.len() as int + 1)
        == report_spec(title, updated).skip(title.len() as int + 1) by {
        assert(report_spec(other, updated).skip(other.len() as int + 1) =~= word);
    }
    let n = title.len() as int;
    assert(report_spec(title, true)[n + 1] == '更');
    assert(report_spec(title, false)[n + 1] == '没');
}

impl UpdaterState {
    /// The list watched.
    pub closed spec fn watched_feed(&self) -> Config {
        self.feed
    }

    /// Title of the list at the last fetch; empty before the first.
    pub closed spec fn title(&self) -> Seq<char> {
        self.fav_title@
    }

    /// The source id settled for the list, once one is.
    pub closed spec fn source(&self) -> Option<u32> {
        self.source_id
    }

    /// The list watched.
    pub fn feed(&self) -> (feed: &Config)
        ensures
            *feed == self.watched_feed(),
    {
        &self.feed
    }

    /// Title of the list at the last fetch.
    pub fn fav_title(&self) -> (title: &str)
        ensures
            title@ == self.title(),
    {
        self.fav_title.as_str()
    }

    /// The state of a new updater for `feed`: no title and no source id yet.
    pub fn new(feed: Config) -> (s: UpdaterState)
        ensures
            s.watched_feed() == feed,
            s.title() == Seq::<char>::empty(),
            s.source() is None,
    {
        UpdaterState { feed, fav_title: String::new(), source_id: None }
    }

    /// Takes in a fetched list: remembers its title, and asks for the list (by its
    /// decimal id) to be registered as a source when no source id is settled yet.
    pub fn on_fetched(&mut self, fav_id: u64, fav_title: &str) -> (register: Option<String>)
        ensures
            final(self).title() == fav_title@,
            final(self).watched_feed() == old(self).watched_feed(),
            final(self).source() == old(self).source(),
            register is Some <==> old(self).source() is None,
            register matches Some(link) ==> link@ == source_link(fav_id),
    {
        self.fav_title = String::from_str(fav_title);
        match self.source_id {
            Some(_) => None,
            None => Some(decimal_string(fav_id)),
        }
    }

    /// Settles the source id with the result of the registration (`None` when it
    /// failed, which counts as id 0). A settled id never changes.
    pub fn settle_source(&mut self, registered: Option<u32>)
        ensures
            final(self).watched_feed() == old(self).watched_feed(),
            final(self).title() == old(self).title(),
            old(self).source() is Some ==> final(self).source() == old(self).source(),
            old(self).source() is None ==> final(self).source() == Some(
                match registered {
                    Some(id) => id,
                    None => 0u32,
                },
            ),
    {
        if self.source_id.is_none() {
            self.source_id = Some(
                match registered {
                    Some(id) => id,
                    None => 0,
                },
            );
        }
    }

    /// The source id new videos are recorded under: the settled one, or 0.
    pub fn source_id(&self) -> (id: u32)
        ensures
            id == match self.source() {
                Some(id) => id,
                None => 0u32,
            },
    {
        match self.source_id {
            Some(id) => id,
            None => 0,
        }
    }

    /// The downloader's arguments for `link`, with the login token when known.
    /// Joining the arguments that come from the configured options with single
    /// spaces gives those options back unchanged, and the link comes last.
    pub fn downloader_args(&self, sessdata: Option<&str>, link: &str) -> (args: Vec<String>)
        ensures
            views(args@) == downloader_args_spec(
                self.watched_feed().option@,
                match sessdata {
                    Some(t) => Some(t@),
                    None => None,
                },
                self.watched_feed().path@,
                link@,
            ),
            join_spaces(views(args@).take(split_spaces(self.watched_feed().option@).len() as int)) == self.watched_feed().option@,
            views(args@).last() == link@,
    {
        let mut args = split_on_spaces(self.feed.option.as_str());
        let ghost option_part = views(args@);
        match sessdata {
            Some(t) => {
                args.push(String::from_str("-c"));
                args.push(String::from_str(t));
            },
            None => {},
        }
        args.push(String::from_str("-d"));
        args.push(String::from_str("downloads/").concat(self.feed.path.as_str()));
        args.push(String::from_str(link));
        proof {
            let tok = match sessdata {
                Some(t) => Some(t@),
                None => None,
            };
            assert(views(args@) =~= downloader_args_spec(self.watched_feed().option@, tok, self.watched_feed().path@, link@));
            assert(views(args@).take(option_part.len() as int) =~= option_part);
            lemma_join_split(self.watched_feed().option@);
        }
        args
    }

    /// The appends that record one downloader run on `link` with these outputs.
    pub fn command_log(&self, link: &str, stdout: &str, stderr: &str) -> (writes: Vec<LogWrite>)
        ensures
            write_views(writes@) == command_log_spec(self.title(), link@, stdout@, stderr@),
    {
        let title = self.fav_title.as_str();
        let line = String::from_str(title).concat(": ").concat(link);
        let mut writes: Vec<LogWrite> = Vec::new();
        assert(write_views(writes@) =~= Seq::empty());
        push_stream(&mut writes, title, "stdout", line.as_str(), stdout);
        push_stream(&mut writes, title, "stderr", line.as_str(), stderr);
        assert(write_views(writes@) =~= command_log_spec(self.title(), link@, stdout@, stderr@));
        writes
    }

    /// The summary of a check: the list's title and whether any video was new.
    pub fn report(&self, outcomes: &Vec<ItemOutcome>) -> (msg: String)
        ensures
            msg@ == report_spec(
                self.title(),
                exists|i: int| 0 <= i < outcomes@.len() && outcomes@[i] == ItemOutcome::New,
            ),
    {
        let mut updated = false;
        let mut i: usize = 0;
        while i < outcomes.len()
            invariant
                i <= outcomes@.len(),
                updated == exists|j: int| 0 <= j < i && outcomes@[j] == ItemOutcome::New,
            decreases outcomes@.len() - i,
        {
            if let ItemOutcome::New = outcomes[i] {
                updated = true;
            }
            i = i + 1;
        }
        let base = String::from_str(self.fav_title.as_str()).concat(" ");
        if updated {
            base.concat("更新完成")
        } else {
            base.concat("没有更新")
        }
    }
}

} // verus!
