use webcrawler::link::Link;
use webcrawler::output::clean_writer;
use webcrawler::output::handle_output;
use webcrawler::output::init_writer;
use webcrawler::output::write_json;
use webcrawler::output::write_links;
use webcrawler::output::FanAction;
use webcrawler::output::FanEvent;
use webcrawler::output::Flow;
use webcrawler::output::OutputFile;
use webcrawler::output::Sink;

fn link(url: &str) -> Link {
    Link::new_from_str(url).unwrap()
}

fn sent_to(action: FanAction) -> (Sink, String) {
    match action {
        FanAction::Send(sink, link) => (sink, link.url),
        other => panic!("nothing is sent: {:?}", other),
    }
}

#[test]
fn every_record_reaches_every_sink_in_order() {
    let mut fan = handle_output(true, true);
    for url in ["https://a.com/1", "https://a.com/2"] {
        assert_eq!(sent_to(fan.step(FanEvent::Record(link(url)))), (Sink::Files, url.to_string()));
        assert_eq!(sent_to(fan.step(FanEvent::Sent)), (Sink::Console, url.to_string()));
        assert!(matches!(fan.step(FanEvent::Sent), FanAction::Receive));
    }
    assert!(matches!(fan.step(FanEvent::EndOfInput), FanAction::Close));
    assert_eq!(fan.flow(), Flow::Ended);
}

#[test]
fn one_sink_alone_is_served() {
    let mut files = handle_output(true, false);
    assert_eq!(sent_to(files.step(FanEvent::Record(link("https://a.com/")))).0, Sink::Files);
    assert!(matches!(files.step(FanEvent::Sent), FanAction::Receive));
    let mut console = handle_output(false, true);
    assert_eq!(sent_to(console.step(FanEvent::Record(link("https://a.com/")))).0, Sink::Console);
    assert!(matches!(console.step(FanEvent::Sent), FanAction::Receive));
}

#[test]
fn without_sinks_records_are_dropped() {
    let mut fan = handle_output(false, false);
    assert!(matches!(fan.step(FanEvent::Record(link("https://a.com/"))), FanAction::Receive));
    assert!(matches!(fan.step(FanEvent::Record(link("https://a.com/"))), FanAction::Receive));
    assert!(matches!(fan.step(FanEvent::EndOfInput), FanAction::Close));
}

#[test]
fn a_closed_sink_is_fatal() {
    let mut fan = handle_output(true, true);
    fan.step(FanEvent::Record(link("https://a.com/")));
    assert!(matches!(fan.step(FanEvent::SinkClosed), FanAction::Abort));
    assert_eq!(fan.flow(), Flow::Failed);
    assert!(matches!(fan.step(FanEvent::Record(link("https://a.com/2"))), FanAction::Abort));
    assert!(matches!(fan.step(FanEvent::Sent), FanAction::Abort));
    assert!(matches!(fan.step(FanEvent::EndOfInput), FanAction::Abort));
    assert_eq!(fan.flow(), Flow::Failed);
}

#[test]
fn the_second_sink_may_be_the_one_that_closed() {
    let mut fan = handle_output(true, true);
    fan.step(FanEvent::Record(link("https://a.com/")));
    assert_eq!(sent_to(fan.step(FanEvent::Sent)).0, Sink::Console);
    assert!(matches!(fan.step(FanEvent::SinkClosed), FanAction::Abort));
}

#[test]
fn an_event_out_of_turn_fails_the_fan_out() {
    let mut fan = handle_output(true, false);
    assert!(matches!(fan.step(FanEvent::Sent), FanAction::Abort));
    assert_eq!(fan.flow(), Flow::Failed);
}

#[test]
fn records_are_partitioned_by_kind_and_state() {
    let json = b"{}".to_vec();
    let mut page = link("https://a.com/");
    assert_eq!(write_links(&page, &json).file, OutputFile::NotCrawled);
    page.crawled = true;
    assert_eq!(write_links(&page, &json).file, OutputFile::Crawled);
    let mut mail = link("mailto:a@b.com");
    assert_eq!(write_links(&mail, &json).file, OutputFile::Emails);
    mail.crawled = true;
    assert_eq!(write_links(&mail, &json).file, OutputFile::Emails);
    assert_eq!(write_links(&link("tel:+15551234"), &json).file, OutputFile::PhoneNos);
}

#[test]
fn files_have_their_names() {
    assert_eq!(OutputFile::Crawled.file_name(), "crawled.json");
    assert_eq!(OutputFile::NotCrawled.file_name(), "not_crawled.json");
    assert_eq!(OutputFile::Emails.file_name(), "emails.json");
    assert_eq!(OutputFile::PhoneNos.file_name(), "phone_nos.json");
}

#[test]
fn a_file_is_a_json_array() {
    let mut file = init_writer();
    assert_eq!(file, b"[\n".to_vec());
    file.extend(write_json(&b"{\"url\": \"https://a.com/\"}".to_vec()));
    file.extend(write_links(&link("https://a.com/"), &b"{\"n\": 2}".to_vec()).bytes);
    file.extend(clean_writer());
    assert_eq!(
        String::from_utf8(file).unwrap(),
        "[\n{\"url\": \"https://a.com/\"},\n{\"n\": 2},\n{}\n]"
    );
}

#[test]
fn an_empty_file_is_an_array_too() {
    let mut file = init_writer();
    file.extend(clean_writer());
    assert_eq!(file, b"[\n{}\n]".to_vec());
}
