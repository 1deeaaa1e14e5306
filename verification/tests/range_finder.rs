use std::ops::Range;
use tlsn_langchain::range_finder::find_ranges;

fn covered(ranges: &[Range<usize>], offset: usize) -> bool {
    ranges.iter().any(|r| r.start <= offset && offset < r.end)
}

#[test]
fn finds_the_bearer_token_and_what_surrounds_it() {
    let transcript: &[u8] = b"Authorization: Bearer abc123\r\nContent-Length: 5\r\n\r\nhello";
    let literal: &[u8] = b"abc123";
    let (public, private) = find_ranges(transcript, &[literal]);
    assert_eq!(transcript.len(), 56);
    assert_eq!(private, vec![22..28]);
    assert_eq!(&transcript[22..28], b"abc123");
    assert_eq!(public, vec![0..22, 28..56]);
    for range in &public {
        for offset in range.clone() {
            assert!(!(22..28).contains(&offset));
        }
    }
}

#[test]
fn without_literals_the_whole_transcript_is_public() {
    let transcript: &[u8] = b"GET / HTTP/1.1\r\n\r\n";
    let (public, private) = find_ranges(transcript, &[]);
    assert_eq!(public, vec![0..transcript.len()]);
    assert!(private.is_empty());
}

#[test]
fn an_empty_transcript_has_no_ranges() {
    let (public, private) = find_ranges(b"", &[]);
    assert!(public.is_empty());
    assert!(private.is_empty());
    let literal: &[u8] = b"x";
    let (public, private) = find_ranges(b"", &[literal]);
    assert!(public.is_empty());
    assert!(private.is_empty());
}

#[test]
fn a_literal_that_is_the_whole_transcript_leaves_nothing_public() {
    let transcript: &[u8] = b"secret";
    let (public, private) = find_ranges(transcript, &[transcript]);
    assert!(public.is_empty());
    assert_eq!(private, vec![0..6]);
}

#[test]
fn a_literal_that_does_not_occur_adds_nothing() {
    let transcript: &[u8] = b"hello world";
    let absent: &[u8] = b"xyz";
    let present: &[u8] = b"world";
    let (public, private) = find_ranges(transcript, &[absent, present]);
    assert_eq!(private, vec![6..11]);
    assert_eq!(public, vec![0..6]);
    let (public, private) = find_ranges(transcript, &[absent]);
    assert!(private.is_empty());
    assert_eq!(public, vec![0..11]);
}

#[test]
fn a_literal_longer_than_the_transcript_does_not_occur() {
    let transcript: &[u8] = b"ab";
    let literal: &[u8] = b"abc";
    let (public, private) = find_ranges(transcript, &[literal]);
    assert!(private.is_empty());
    assert_eq!(public, vec![0..2]);
}

#[test]
fn every_occurrence_is_listed_overlapping_ones_too() {
    let transcript: &[u8] = b"aaaa";
    let literal: &[u8] = b"aa";
    let (public, private) = find_ranges(transcript, &[literal]);
    assert_eq!(private, vec![0..2, 1..3, 2..4]);
    assert!(public.is_empty());
}

#[test]
fn private_ranges_come_literal_by_literal_and_repeat() {
    let transcript: &[u8] = b"ab-cd-ab";
    let first: &[u8] = b"cd";
    let second: &[u8] = b"ab";
    let (public, private) = find_ranges(transcript, &[first, second, first]);
    assert_eq!(private, vec![3..5, 0..2, 6..8, 3..5]);
    assert_eq!(public, vec![2..3, 5..6]);
}

#[test]
fn adjacent_occurrences_leave_no_empty_public_range() {
    let transcript: &[u8] = b"xabab";
    let literal: &[u8] = b"ab";
    let (public, private) = find_ranges(transcript, &[literal]);
    assert_eq!(private, vec![1..3, 3..5]);
    assert_eq!(public, vec![0..1]);
}

#[test]
fn the_cursor_follows_the_last_range_met_even_backwards() {
    // "a" lies inside the occurrence of "aab". The sweep meets 0..3, then
    // 0..1, then 1..2, and takes the end of each as it comes.
    let transcript: &[u8] = b"aab";
    let whole: &[u8] = b"aab";
    let inner: &[u8] = b"a";
    let (public, private) = find_ranges(transcript, &[whole, inner]);
    assert_eq!(private, vec![0..3, 0..1, 1..2]);
    assert_eq!(public, vec![2..3]);
}

#[test]
fn ranges_with_one_start_keep_the_order_of_their_literals() {
    let transcript: &[u8] = b"abcx";
    let short: &[u8] = b"ab";
    let long: &[u8] = b"abc";
    let (public, _) = find_ranges(transcript, &[short, long]);
    assert_eq!(public, vec![3..4]);
    let (public, _) = find_ranges(transcript, &[long, short]);
    assert_eq!(public, vec![2..4]);
}

#[test]
fn a_nested_literal_after_the_whole_transcript_can_chain_to_the_end() {
    let transcript: &[u8] = b"abab";
    let whole: &[u8] = b"abab";
    let half: &[u8] = b"ab";
    let (public, private) = find_ranges(transcript, &[whole, half]);
    assert_eq!(private, vec![0..4, 0..2, 2..4]);
    assert!(public.is_empty());
}

#[test]
fn every_offset_is_public_or_private() {
    let transcript: &[u8] = b"key=abc; other=abcabc; key=zzz; tail";
    let first: &[u8] = b"abc";
    let second: &[u8] = b"bca";
    let third: &[u8] = b"zzz";
    let (public, private) = find_ranges(transcript, &[first, second, third]);
    for offset in 0..transcript.len() {
        assert!(covered(&public, offset) || covered(&private, offset));
    }
    for pair in public.windows(2) {
        assert!(pair[0].end < pair[1].start);
    }
    for range in &public {
        assert!(range.start < range.end && range.end <= transcript.len());
    }
}

#[test]
fn literals_of_one_length_tile_the_transcript() {
    let transcript: &[u8] = b"xxabcdxxcdefxx";
    let first: &[u8] = b"abcd";
    let second: &[u8] = b"cdef";
    let third: &[u8] = b"bcdx";
    let (public, private) = find_ranges(transcript, &[first, second, third]);
    assert_eq!(private, vec![2..6, 8..12, 3..7]);
    assert_eq!(public, vec![0..2, 7..8, 12..14]);
    for offset in 0..transcript.len() {
        assert!(covered(&public, offset) != covered(&private, offset));
    }
}
