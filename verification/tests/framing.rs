use rucli::netconf::error::FramingError;
use rucli::netconf::framing::{find_delimiter, frame, frame_bytes, frame_rpc, Framer};
use rucli::netconf::quotes::unescape_quotes;

#[test]
fn frame_appends_delimiter_and_line_feed() {
    assert_eq!(frame("<hello/>"), b"<hello/>]]>]]>\n".to_vec());
}

#[test]
fn frame_of_nothing_is_the_delimiter_and_line_feed() {
    assert_eq!(frame(""), b"]]>]]>\n".to_vec());
    assert_eq!(frame_bytes(b""), b"]]>]]>\n".to_vec());
}

#[test]
fn frame_keeps_the_utf8_bytes_of_the_document() {
    let mut expected = "<a>größe</a>".as_bytes().to_vec();
    expected.extend_from_slice(b"]]>]]>\n");
    assert_eq!(frame("<a>größe</a>"), expected);
}

#[test]
fn frame_rpc_restores_literal_quotes() {
    assert_eq!(
        frame_rpc("<rpc><command>show &quot;x&quot;</command></rpc>"),
        b"<rpc><command>show \"x\"</command></rpc>]]>]]>\n".to_vec()
    );
}

#[test]
fn frame_rpc_leaves_other_entities_alone() {
    assert_eq!(
        frame_rpc("<command>a &lt; b &amp;&amp; c</command>"),
        b"<command>a &lt; b &amp;&amp; c</command>]]>]]>\n".to_vec()
    );
}

#[test]
fn unescape_quotes_replaces_every_entity() {
    assert_eq!(unescape_quotes(b""), b"".to_vec());
    assert_eq!(unescape_quotes(b"&quot;"), b"\"".to_vec());
    assert_eq!(unescape_quotes(b"&quot;&quot;"), b"\"\"".to_vec());
    assert_eq!(unescape_quotes(b"a&quot;b&quot;c"), b"a\"b\"c".to_vec());
}

#[test]
fn unescape_quotes_leaves_near_misses() {
    assert_eq!(unescape_quotes(b"&quot"), b"&quot".to_vec());
    assert_eq!(unescape_quotes(b"&quo&quot;t;"), b"&quo\"t;".to_vec());
    assert_eq!(unescape_quotes(b"&amp;quot;"), b"&amp;quot;".to_vec());
    assert_eq!(unescape_quotes(b"&&quot;"), b"&\"".to_vec());
    assert_eq!(unescape_quotes(b"quot;"), b"quot;".to_vec());
}

#[test]
fn find_delimiter_reports_the_first_of_several() {
    assert_eq!(find_delimiter(b""), None);
    assert_eq!(find_delimiter(b"]]>]]"), None);
    assert_eq!(find_delimiter(b"]]>]]>"), Some(0));
    assert_eq!(find_delimiter(b"abc]]>]]>def]]>]]>"), Some(3));
    assert_eq!(find_delimiter(b"]]]>]]>"), Some(1));
    assert_eq!(find_delimiter(b"]]>x]]>]]]>]]>"), Some(8));
}

#[test]
fn read_waits_for_the_delimiter() {
    let mut framer = Framer::new();
    assert_eq!(framer.read(), Ok(None));
    assert_eq!(framer.receive(b"<rpc-reply>"), Ok(()));
    assert_eq!(framer.read(), Ok(None));
    assert_eq!(framer.receive(b"</rpc-reply>]]>]]"), Ok(()));
    assert_eq!(framer.read(), Ok(None));
    assert_eq!(framer.receive(b">"), Ok(()));
    assert_eq!(framer.read(), Ok(Some("<rpc-reply></rpc-reply>".to_string())));
    assert_eq!(framer.read(), Ok(None));
}

#[test]
fn bytes_after_the_delimiter_stay_for_the_next_read() {
    let mut framer = Framer::new();
    assert_eq!(framer.receive(b"<one/>]]>]]>\n<tw"), Ok(()));
    assert_eq!(framer.read(), Ok(Some("<one/>".to_string())));
    assert_eq!(framer.read(), Ok(None));
    assert_eq!(framer.receive(b"o/>]]>]]>"), Ok(()));
    assert_eq!(framer.read(), Ok(Some("\n<two/>".to_string())));
    assert_eq!(framer.read(), Ok(None));
}

#[test]
fn two_documents_in_one_burst_are_read_one_by_one() {
    let mut framer = Framer::new();
    assert_eq!(framer.receive(b"<one/>]]>]]><two/>]]>]]>"), Ok(()));
    assert_eq!(framer.read(), Ok(Some("<one/>".to_string())));
    assert_eq!(framer.read(), Ok(Some("<two/>".to_string())));
    assert_eq!(framer.read(), Ok(None));
}

#[test]
fn closed_stream_is_a_framing_error() {
    let mut framer = Framer::new();
    assert_eq!(framer.receive(b""), Err(FramingError::StreamClosed));
    assert_eq!(framer.receive(b"<rpc-reply>"), Ok(()));
    assert_eq!(framer.receive(b""), Err(FramingError::StreamClosed));
    assert_eq!(framer.read(), Ok(None));
}

#[test]
fn closed_stream_after_a_delimiter_leaves_the_document_to_read() {
    let mut framer = Framer::new();
    assert_eq!(framer.receive(b"<ok/>]]>]]>"), Ok(()));
    assert_eq!(framer.receive(b""), Ok(()));
    assert_eq!(framer.read(), Ok(Some("<ok/>".to_string())));
    assert_eq!(framer.receive(b""), Err(FramingError::StreamClosed));
}

#[test]
fn invalid_utf8_is_a_framing_error() {
    let mut framer = Framer::new();
    assert_eq!(framer.receive(&[0xff, 0xfe, b']', b']', b'>', b']', b']', b'>', b'x']), Ok(()));
    assert_eq!(framer.read(), Err(FramingError::InvalidUtf8));
    assert_eq!(framer.receive(b"]]>]]>"), Ok(()));
    assert_eq!(framer.read(), Ok(Some("x".to_string())));
}

#[test]
fn truncated_utf8_is_a_framing_error() {
    let mut framer = Framer::new();
    assert_eq!(framer.receive(&[b'a', 0xc3, b']', b']', b'>', b']', b']', b'>']), Ok(()));
    assert_eq!(framer.read(), Err(FramingError::InvalidUtf8));
}

#[test]
fn framed_document_reads_back_exactly() {
    let documents = ["", "<hello/>", "<a>]]></a>", "<a>]] > ]]></a> ", "<ä>€</ä>", "x]]", "]]>]]"];
    for document in documents {
        let mut framer = Framer::new();
        assert_eq!(framer.receive(&frame(document)), Ok(()));
        assert_eq!(framer.read(), Ok(Some(document.to_string())));
        assert_eq!(framer.read(), Ok(None));
        assert_eq!(framer.receive(&frame(document)), Ok(()));
        assert_eq!(framer.read(), Ok(Some(format!("\n{}", document))));
    }
}

#[test]
fn document_ending_in_half_a_delimiter_is_cut_short() {
    let mut framer = Framer::new();
    assert_eq!(framer.receive(&frame("a]]>")), Ok(()));
    assert_eq!(framer.read(), Ok(Some("a".to_string())));
}

fn plain_scan(haystack: &[u8], needle: &[u8]) -> Option<usize> {
    if needle.len() > haystack.len() {
        return None;
    }
    (0..=haystack.len() - needle.len()).find(|&at| &haystack[at..at + needle.len()] == needle)
}

fn words(alphabet: &[u8], length: usize) -> Vec<Vec<u8>> {
    let mut all = vec![Vec::new()];
    for _ in 0..length {
        let mut longer = Vec::new();
        for word in &all {
            for &letter in alphabet {
                let mut next = word.clone();
                next.push(letter);
                longer.push(next);
            }
        }
        all = longer;
    }
    all
}

#[test]
fn find_delimiter_agrees_with_a_plain_scan() {
    for length in 0..=10 {
        for haystack in words(b"]>a", length) {
            assert_eq!(find_delimiter(&haystack), plain_scan(&haystack, b"]]>]]>"));
        }
    }
}

#[test]
fn unescape_quotes_agrees_with_replace() {
    for length in 0..=7 {
        for bytes in words(b"&quot;", length) {
            let text = String::from_utf8(bytes.clone()).unwrap();
            assert_eq!(unescape_quotes(&bytes), text.replace("&quot;", "\"").into_bytes());
        }
    }
    for text in ["&quot;&quot;&quot;", "a&quot;&quot &quot;;", "ä&quot;€&quot;", "\"&quot;\""] {
        assert_eq!(unescape_quotes(text.as_bytes()), text.replace("&quot;", "\"").into_bytes());
    }
}

#[test]
fn unescaped_bytes_hold_no_entity() {
    for length in 0..=7 {
        for bytes in words(b"&quot;", length) {
            assert_eq!(plain_scan(&unescape_quotes(&bytes), b"&quot;"), None);
        }
    }
}
