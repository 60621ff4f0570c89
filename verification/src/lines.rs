//! The data file of a bundle as bytes: one record a line.

use vstd::prelude::*;

verus! {

/// The byte that ends a line.
pub const NEWLINE: u8 = 10;

/// Whether `payload` fits on one line.
pub open spec fn is_one_line(payload: Seq<u8>) -> bool {
    forall|i: int| 0 <= i < payload.len() ==> payload[i] != NEWLINE
}

/// `payload` as a line of the data file.
pub open spec fn framed(payload: Seq<u8>) -> Seq<u8> {
    payload.push(NEWLINE)
}

/// The data file that holds `payloads`, each as a line, in their order.
pub open spec fn data_of(payloads: Seq<Seq<u8>>) -> Seq<u8>
    decreases payloads.len(),
{
    if payloads.len() == 0 {
        Seq::empty()
    } else {
        data_of(payloads.drop_last()) + framed(payloads.last())
    }
}

/// The length of the first line of `data`, its end of line counted: up to
/// the first end of line, or all of `data` where it has none.
pub open spec fn first_line_len(data: Seq<u8>) -> int
    decreases data.len(),
{
    if data.len() == 0 {
        0
    } else if data[0] == NEWLINE {
        1
    } else {
        1 + first_line_len(data.skip(1))
    }
}

/// The lines of `data`, each with its end of line; the last one has none
/// where `data` does not end in one.
pub open spec fn lines_of(data: Seq<u8>) -> Seq<Seq<u8>>
    decreases data.len(),
    via lines_of_decreases
{
    if data.len() == 0 {
        Seq::empty()
    } else {
        let n = first_line_len(data);
        seq![data.take(n)] + lines_of(data.skip(n))
    }
}

#[via_fn]
proof fn lines_of_decreases(data: Seq<u8>) {
    if data.len() != 0 {
        lemma_first_line(data);
    }
}

/// The first line of a file that is not empty is not empty, lies within the
/// file, holds no end of line before its last byte, and ends in one unless it
/// is all of the file.
pub proof fn lemma_first_line(data: Seq<u8>)
    requires
        data.len() > 0,
    ensures
        1 <= first_line_len(data) <= data.len(),
        forall|i: int| 0 <= i < first_line_len(data) - 1 ==> data[i] != NEWLINE,
        data[first_line_len(data) - 1] == NEWLINE || first_line_len(data) == data.len(),
    decreases data.len(),
{
    if data[0] != NEWLINE {
        let rest = data.skip(1);
        if rest.len() > 0 {
            lemma_first_line(rest);
            assert forall|i: int| 0 <= i < first_line_len(data) - 1 implies data[i] != NEWLINE by {
                if i > 0 {
                    assert(rest[i - 1] == data[i]);
                }
            }
            assert(rest[first_line_len(rest) - 1] == data[first_line_len(rest)]);
        }
    }
}

/// A length that is as the first line's is the first line's.
pub proof fn lemma_first_line_is(data: Seq<u8>, n: int)
    requires
        1 <= n <= data.len(),
        forall|i: int| 0 <= i < n - 1 ==> data[i] != NEWLINE,
        data[n - 1] == NEWLINE || n == data.len(),
    ensures
        first_line_len(data) == n,
    decreases data.len(),
{
    if data[0] == NEWLINE {
        if n > 1 {
            assert(data[0] != NEWLINE);
        }
    } else {
        let rest = data.skip(1);
        if n == 1 {
            assert(rest.len() == 0);
            assert(first_line_len(rest) == 0);
        } else {
            assert forall|i: int| 0 <= i < n - 2 implies rest[i] != NEWLINE by {
                assert(rest[i] == data[i + 1]);
            }
            assert(rest[n - 2] == data[n - 1]);
            lemma_first_line_is(rest, n - 1);
        }
    }
}

/// What the lines of a file are: strung together they give the file; none
/// is empty; none holds an end of line before its last byte; and each but
/// the last ends in one.
pub proof fn lemma_lines_of(data: Seq<u8>)
    ensures
        lines_of(data).flatten() == data,
        forall|k: int| 0 <= k < lines_of(data).len() ==> (#[trigger] lines_of(data)[k]).len() > 0,
        forall|k: int|
            0 <= k < lines_of(data).len() ==> is_one_line(
                (#[trigger] lines_of(data)[k]).drop_last(),
            ),
        forall|k: int|
            0 <= k < lines_of(data).len() - 1 ==> (#[trigger] lines_of(data)[k]).last()
                == NEWLINE,
    decreases data.len(),
{
    if data.len() == 0 {
        assert(lines_of(data).flatten() == data);
    } else {
        let n = first_line_len(data);
        let first = data.take(n);
        let rest = lines_of(data.skip(n));
        let lines = lines_of(data);
        lemma_first_line(data);
        lemma_lines_of(data.skip(n));
        assert(lines == seq![first] + rest);
        assert(lines.first() == first);
        assert(lines.drop_first() == rest);
        assert(lines.flatten() == first + rest.flatten());
        assert(first + data.skip(n) == data);
        assert forall|k: int| 0 <= k < lines.len() implies (#[trigger] lines[k]).len() > 0
            && is_one_line(lines[k].drop_last()) by {
            if k > 0 {
                assert(lines[k] == rest[k - 1]);
            } else {
                assert forall|i: int| 0 <= i < first.drop_last().len() implies first.drop_last()[i]
                    != NEWLINE by {
                    assert(first.drop_last()[i] == data[i]);
                }
            }
        }
        assert forall|k: int| 0 <= k < lines.len() - 1 implies (#[trigger] lines[k]).last()
            == NEWLINE by {
            if k > 0 {
                assert(lines[k] == rest[k - 1]);
            } else {
                assert(rest.len() > 0);
                assert(data.skip(n).len() > 0);
                assert(first.last() == data[n - 1]);
            }
        }
    }
}

/// `payload` as a line of the data file.
pub fn frame_line(payload: Vec<u8>) -> (line: Vec<u8>)
    ensures
        line@ == framed(payload@),
{
    let mut line = payload;
    line.push(NEWLINE);
    line
}

/// The lines of `data`, as a reader that reads line by line gets them.
pub fn split_lines(data: &Vec<u8>) -> (lines: Vec<Vec<u8>>)
    ensures
        lines.len() == lines_of(data@).len(),
        forall|k: int| 0 <= k < lines.len() ==> (#[trigger] lines[k])@ == lines_of(data@)[k],
{
    let mut lines: Vec<Vec<u8>> = Vec::new();
    let mut start: usize = 0;
    assert(data@.skip(0) == data@);
    while start < data.len()
        invariant
            start <= data.len(),
            lines_of(data@).len() == lines.len() + lines_of(data@.skip(start as int)).len(),
            forall|k: int| 0 <= k < lines.len() ==> (#[trigger] lines[k])@ == lines_of(data@)[k],
            forall|k: int|
                0 <= k < lines_of(data@.skip(start as int)).len() ==> lines_of(
                    data@.skip(start as int),
                )[k] == lines_of(data@)[lines.len() + k],
        decreases data.len() - start,
    {
        let ghost rest = data@.skip(start as int);
        let mut line: Vec<u8> = Vec::new();
        let mut end: usize = start;
        let mut ended = false;
        while end < data.len() && !ended
            invariant
                start <= end <= data.len(),
                rest == data@.skip(start as int),
                line@ == rest.take(end - start),
                forall|i: int| 0 <= i < end - start - 1 ==> rest[i] != NEWLINE,
                ended ==> end > start && rest[end - start - 1] == NEWLINE,
                !ended && end > start ==> rest[end - start - 1] != NEWLINE,
            decreases data.len() - end + if ended { 0int } else { 1int },
        {
            let byte = data[end];
            line.push(byte);
            assert(rest[end - start] == byte);
            assert(rest.take(end - start + 1) == rest.take(end - start).push(byte));
            end += 1;
            if byte == NEWLINE {
                ended = true;
            }
        }
        proof {
            lemma_first_line_is(rest, end - start);
            assert(rest.skip(end - start) == data@.skip(end as int));
            let tail = lines_of(data@.skip(end as int));
            assert(lines_of(rest) == seq![rest.take(end - start)] + tail);
            assert(lines_of(rest)[0] == line@);
            assert forall|k: int| 0 <= k < tail.len() implies tail[k] == lines_of(data@)[lines.len()
                + 1 + k] by {
                assert(lines_of(rest)[k + 1] == tail[k]);
            }
        }
        lines.push(line);
        start = end;
    }
    assert(data@.skip(start as int).len() == 0);
    lines
}

/// What the lines of `head` and those of `tail` are, the lines of both in
/// one file are too, where `head` ends at the end of a line.
pub proof fn lemma_lines_of_add(head: Seq<u8>, tail: Seq<u8>)
    requires
        head.len() == 0 || head.last() == NEWLINE,
    ensures
        lines_of(head + tail) == lines_of(head) + lines_of(tail),
    decreases head.len(),
{
    if head.len() == 0 {
        assert(head + tail == tail);
        assert(lines_of(head) + lines_of(tail) == lines_of(tail));
    } else {
        let whole = head + tail;
        let n = first_line_len(head);
        lemma_first_line(head);
        assert(head[n - 1] == NEWLINE);
        assert forall|i: int| 0 <= i < n - 1 implies whole[i] != NEWLINE by {
            assert(whole[i] == head[i]);
        }
        assert(whole[n - 1] == head[n - 1]);
        lemma_first_line_is(whole, n);
        assert(whole.take(n) == head.take(n));
        assert(whole.skip(n) == head.skip(n) + tail);
        let rest = head.skip(n);
        if rest.len() > 0 {
            assert(rest.last() == head.last());
        }
        lemma_lines_of_add(rest, tail);
        assert(lines_of(whole) == seq![head.take(n)] + (lines_of(rest) + lines_of(tail)));
        assert(lines_of(head) == seq![head.take(n)] + lines_of(rest));
    }
}

/// A payload that fits on one line is, framed, the one line of its file.
pub proof fn lemma_lines_of_framed(payload: Seq<u8>)
    requires
        is_one_line(payload),
    ensures
        lines_of(framed(payload)) == seq![framed(payload)],
{
    let line = framed(payload);
    assert forall|i: int| 0 <= i < line.len() - 1 implies line[i] != NEWLINE by {
        assert(line[i] == payload[i]);
    }
    lemma_first_line_is(line, line.len() as int);
    assert(line.take(line.len() as int) == line);
    assert(line.skip(line.len() as int).len() == 0);
    assert(lines_of(line.skip(line.len() as int)) == Seq::<Seq<u8>>::empty());
    assert(seq![line] + Seq::<Seq<u8>>::empty() == seq![line]);
}

/// Reading back what was written: the lines of the data file that holds
/// `payloads` are those payloads, framed, in their order, where each fits on
/// one line.
pub proof fn lemma_lines_of_data(payloads: Seq<Seq<u8>>)
    requires
        forall|k: int| 0 <= k < payloads.len() ==> is_one_line(#[trigger] payloads[k]),
    ensures
        lines_of(data_of(payloads)).len() == payloads.len(),
        forall|k: int|
            0 <= k < payloads.len() ==> #[trigger] lines_of(data_of(payloads))[k] == framed(
                payloads[k],
            ),
    decreases payloads.len(),
{
    if payloads.len() > 0 {
        let before = payloads.drop_last();
        let head = data_of(before);
        let line = framed(payloads.last());
        lemma_lines_of_data(before);
        lemma_data_of_ends(before);
        lemma_lines_of_add(head, line);
        lemma_lines_of_framed(payloads.last());
        assert forall|k: int| 0 <= k < payloads.len() implies #[trigger] lines_of(
            data_of(payloads),
        )[k] == framed(payloads[k]) by {
            if k < before.len() {
                assert(before[k] == payloads[k]);
                assert(lines_of(head)[k] == framed(before[k]));
            }
        }
    }
}

/// A data file is empty or ends at the end of a line.
pub proof fn lemma_data_of_ends(payloads: Seq<Seq<u8>>)
    ensures
        data_of(payloads).len() == 0 || data_of(payloads).last() == NEWLINE,
    decreases payloads.len(),
{
    if payloads.len() > 0 {
        assert(framed(payloads.last()).last() == NEWLINE);
    }
}

} // verus!
