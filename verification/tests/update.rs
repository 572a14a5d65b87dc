use bilibili_webhook::config::Config;
use bilibili_webhook::update::{
    video_link, FavEntry, ItemAction, ItemEvent, ItemJob, ItemOutcome, ItemStage, LogWrite, UpdaterState,
};
use bilibili_webhook::writer::output_log;

fn entry(attr: u8) -> FavEntry {
    FavEntry { title: "标题".to_string(), bvid: "BV1xx411c7mD".to_string(), media_type: 2, attr }
}

fn feed(option: &str) -> Config {
    Config { media_id: 66458634, interval: 30, option: option.to_string(), path: "music".to_string(), update: true }
}

#[test]
fn link_of_a_video() {
    assert_eq!(video_link("BV1xx411c7mD"), "https://www.bilibili.com/video/BV1xx411c7mD");
}

#[test]
fn usable_entry_starts_a_job() {
    let job = ItemJob::begin(&entry(0)).unwrap();
    assert_eq!(job.link(), "https://www.bilibili.com/video/BV1xx411c7mD");
    assert_eq!(job.title(), "标题");
    assert_eq!(job.stage(), ItemStage::Checking);
}

#[test]
fn removed_entries_are_refused_with_reason() {
    assert_eq!(ItemJob::begin(&entry(1)).err(), Some("标题 已被其他原因删除！".to_string()));
    assert_eq!(ItemJob::begin(&entry(9)).err(), Some("标题 已被 Up 自己删除！".to_string()));
    assert_eq!(ItemJob::begin(&entry(4)).err(), Some("未知错误！".to_string()));
}

#[test]
fn recorded_video_is_skipped() {
    let mut job = ItemJob::begin(&entry(0)).unwrap();
    assert_eq!(job.step(ItemEvent::Stored(true)), ItemAction::Finish(ItemOutcome::Known));
    assert_eq!(job.stage(), ItemStage::Finished);
}

#[test]
fn new_video_is_downloaded_and_recorded() {
    let mut job = ItemJob::begin(&entry(0)).unwrap();
    assert_eq!(job.step(ItemEvent::Stored(false)), ItemAction::Download);
    assert_eq!(job.step(ItemEvent::Downloaded(true)), ItemAction::Record);
    assert_eq!(job.step(ItemEvent::Recorded), ItemAction::Finish(ItemOutcome::New));
}

#[test]
fn failed_download_reports_the_link() {
    let mut job = ItemJob::begin(&entry(0)).unwrap();
    job.step(ItemEvent::Stored(false));
    assert_eq!(
        job.step(ItemEvent::Downloaded(false)),
        ItemAction::Finish(ItemOutcome::Failed("\"https://www.bilibili.com/video/BV1xx411c7mD\" 下载失败".to_string()))
    );
}

#[test]
fn source_is_registered_once() {
    let mut st = UpdaterState::new(feed(""));
    assert_eq!(st.fav_title(), "");
    assert_eq!(st.source_id(), 0);
    assert_eq!(st.on_fetched(66458634, "我的收藏"), Some("66458634".to_string()));
    assert_eq!(st.fav_title(), "我的收藏");
    st.settle_source(Some(5));
    assert_eq!(st.source_id(), 5);
    assert_eq!(st.on_fetched(66458634, "改名"), None);
    assert_eq!(st.fav_title(), "改名");
    st.settle_source(Some(9));
    assert_eq!(st.source_id(), 5);
}

#[test]
fn failed_registration_counts_as_zero() {
    let mut st = UpdaterState::new(feed(""));
    st.settle_source(None);
    assert_eq!(st.source_id(), 0);
    st.settle_source(Some(4));
    assert_eq!(st.source_id(), 0);
    assert_eq!(st.on_fetched(1, "t"), None);
}

#[test]
fn downloader_arguments_with_token() {
    let st = UpdaterState::new(feed("-q 80 --no-danmaku"));
    let args = st.downloader_args(Some("tok"), "https://www.bilibili.com/video/BV1");
    let expected = ["-q", "80", "--no-danmaku", "-c", "tok", "-d", "downloads/music", "https://www.bilibili.com/video/BV1"];
    assert_eq!(args, expected.iter().map(|s| s.to_string()).collect::<Vec<_>>());
}

#[test]
fn downloader_arguments_without_token_keep_empty_option() {
    let st = UpdaterState::new(feed(""));
    let args = st.downloader_args(None, "L");
    let expected = ["", "-d", "downloads/music", "L"];
    assert_eq!(args, expected.iter().map(|s| s.to_string()).collect::<Vec<_>>());
}

#[test]
fn command_log_skips_empty_streams() {
    let mut st = UpdaterState::new(feed(""));
    st.on_fetched(1, "收藏");
    let w = st.command_log("L", "out", "");
    assert_eq!(w, vec![LogWrite { path: "config/log/stdout_收藏.log".to_string(), text: "收藏: L\nout\n".to_string() }]);
    let w = st.command_log("L", "", "err");
    assert_eq!(w, vec![LogWrite { path: "config/log/stderr_收藏.log".to_string(), text: "收藏: L\nerr\n".to_string() }]);
    assert_eq!(st.command_log("L", "", ""), vec![]);
    assert_eq!(st.command_log("L", "a", "b").len(), 2);
}

#[test]
fn report_says_whether_anything_was_new() {
    let mut st = UpdaterState::new(feed(""));
    st.on_fetched(1, "收藏");
    assert_eq!(st.report(&vec![ItemOutcome::Known, ItemOutcome::New]), "收藏 更新完成");
    assert_eq!(st.report(&vec![ItemOutcome::Known, ItemOutcome::Failed("x".to_string())]), "收藏 没有更新");
    assert_eq!(st.report(&vec![]), "收藏 没有更新");
}

#[test]
fn output_log_path_and_text() {
    let w = output_log("源", "done");
    assert_eq!(w, LogWrite { path: "config/bilili/源.log".to_string(), text: "done\n".to_string() });
}

#[test]
fn feed_is_kept() {
    let st = UpdaterState::new(feed("x"));
    assert_eq!(st.feed().media_id, 66458634);
    assert_eq!(st.feed().option, "x");
}

fn check_once(store: &mut std::collections::HashSet<String>, downloads: &mut u32) -> ItemOutcome {
    let mut job = ItemJob::begin(&entry(0)).unwrap();
    let mut event = ItemEvent::Stored(store.contains(job.link()));
    loop {
        match job.step(event) {
            ItemAction::Download => {
                *downloads += 1;
                event = ItemEvent::Downloaded(true);
            }
            ItemAction::Record => {
                store.insert(job.link().to_string());
                event = ItemEvent::Recorded;
            }
            ItemAction::Finish(outcome) => return outcome,
        }
    }
}

#[test]
fn second_check_of_a_video_is_known_without_download() {
    let mut store = std::collections::HashSet::new();
    let mut downloads = 0;
    assert_eq!(check_once(&mut store, &mut downloads), ItemOutcome::New);
    assert_eq!(check_once(&mut store, &mut downloads), ItemOutcome::Known);
    assert_eq!(check_once(&mut store, &mut downloads), ItemOutcome::Known);
    assert_eq!(downloads, 1);
    assert_eq!(store.len(), 1);
}
