//! The external build's machine-readable protocol.
//!
//! A profile build is one blocking invocation of the build tool, asked for
//! newline-delimited structured (JSON) messages. Each line either carries a
//! `reason` field — a "build-finished" message holds the final success
//! flag — or rendered diagnostic text to accumulate, or is noise to skip.
//! Scaffolding additionally rewrites the copied manifest's declared package
//! name. The JSON and TOML readers are the outside crates' own; their results
//! on a given text are named, so that everything around them — line framing,
//! per-line classification and the accumulation of the outcome and the
//! diagnostics — carries an exact contract over the captured output.

use vstd::prelude::*;
use vstd::string::*;

verus! {

// ---------------------------------------------------------------------------
// Line framing.
// ---------------------------------------------------------------------------

/// The segments joined back with one newline between each pair.
pub open spec fn spec_join_nl(ls: Seq<Seq<char>>) -> Seq<char>
    decreases ls.len(),
{
    if ls.len() == 0 {
        Seq::empty()
    } else if ls.len() == 1 {
        ls[0]
    } else {
        spec_join_nl(ls.drop_last()) + seq!['\n'] + ls.last()
    }
}

/// The lines completed within the first `i` characters, and the start of the
/// trailing still-open segment.
pub open spec fn spec_scan_lines(s: Seq<char>, i: int) -> (Seq<Seq<char>>, int)
    decreases i,
{
    if i <= 0 {
        (Seq::empty(), 0)
    } else {
        let (acc, start) = spec_scan_lines(s, i - 1);
        if s[i - 1] == '\n' {
            (acc.push(s.subrange(start, i - 1)), i)
        } else {
            (acc, start)
        }
    }
}

/// The newline decomposition of the text: every completed line, then the
/// trailing segment.
pub open spec fn spec_split_lines(s: Seq<char>) -> Seq<Seq<char>> {
    spec_scan_lines(s, s.len() as int).0.push(
        s.subrange(spec_scan_lines(s, s.len() as int).1, s.len() as int),
    )
}

/// Split a string at every newline. The result is `spec_split_lines` of the
/// input: the unique decomposition into newline-free segments whose
/// newline-joined concatenation is the input.
pub fn split_lines(s: &str) -> (r: Vec<String>)
    ensures
        r@.len() >= 1,
        r@.map(|i: int, x: String| x@) == spec_split_lines(s@),
        spec_join_nl(r@.map(|i: int, x: String| x@)) == s@,
        forall|i: int| 0 <= i < r@.len() ==> !(#[trigger] r@[i])@.contains('\n'),
{
    let mut out: Vec<String> = Vec::new();
    let mut start: usize = 0;
    let n = s.unicode_len();
    proof {
        assert(out@.map(|j: int, x: String| x@) =~= Seq::<Seq<char>>::empty());
    }
    for i in 0..n
        invariant
            start <= i <= n,
            n == s@.len(),
            out@.map(|j: int, x: String| x@) == spec_scan_lines(s@, i as int).0,
            start as int == spec_scan_lines(s@, i as int).1,
            spec_join_nl(out@.map(|j: int, x: String| x@).push(s@.subrange(start as int, i as int)))
                == s@.take(i as int),
            forall|a: int| 0 <= a < out@.len() ==> !(#[trigger] out@[a])@.contains('\n'),
            forall|j: int| start <= j < i ==> s@[j] != '\n',
    {
        let ghost pre = out@.map(|j: int, x: String| x@);
        let ghost cur = s@.subrange(start as int, i as int);
        if s.get_char(i) == '\n' {
            let piece: String = s.substring_char(start, i).to_owned();
            out.push(piece);
            start = i + 1;
            proof {
                let post = out@.map(|j: int, x: String| x@);
                assert(post =~= pre.push(cur));
                assert(spec_scan_lines(s@, i as int + 1).0 == pre.push(cur));
                assert(spec_scan_lines(s@, i as int + 1).1 == i as int + 1);
                let empty = s@.subrange(start as int, (i + 1) as int);
                assert(empty =~= Seq::<char>::empty());
                let t = post.push(empty);
                assert(t.drop_last() =~= post);
                assert(t.last() == empty);
                assert(t.len() >= 2);
                assert(spec_join_nl(t) == spec_join_nl(t.drop_last()) + seq!['\n'] + t.last());
                assert(spec_join_nl(post) == spec_join_nl(pre.push(cur)));
                assert(spec_join_nl(t) =~= s@.take(i as int) + seq!['\n'] + empty);
                assert(s@.take(i as int) + seq!['\n'] + empty =~= s@.take((i + 1) as int));
            }
        } else {
            proof {
                assert(spec_scan_lines(s@, i as int + 1).0 == pre);
                assert(spec_scan_lines(s@, i as int + 1).1 == start as int);
                let cur2 = s@.subrange(start as int, (i + 1) as int);
                assert(cur2 =~= cur.push(s@[i as int]));
                if pre.len() == 0 {
                    assert(spec_join_nl(pre.push(cur2)) == cur2);
                    assert(spec_join_nl(pre.push(cur)) == cur);
                    assert(cur2 =~= cur + seq![s@[i as int]]);
                    assert(spec_join_nl(pre.push(cur)) + seq![s@[i as int]] =~= cur2);
                } else {
                    assert(pre.push(cur2).drop_last() =~= pre);
                    assert(pre.push(cur).drop_last() =~= pre);
                    assert(spec_join_nl(pre.push(cur2)) == spec_join_nl(pre) + seq!['\n'] + cur2);
                    assert(spec_join_nl(pre) + seq!['\n'] + cur2 =~= (spec_join_nl(pre) + seq![
                        '\n',
                    ] + cur) + seq![s@[i as int]]);
                }
                assert(spec_join_nl(pre.push(cur2)) =~= s@.take(i as int) + seq![s@[i as int]]);
                assert(s@.take(i as int) + seq![s@[i as int]] =~= s@.take((i + 1) as int));
            }
        }
    }
    let ghost pre_map = out@.map(|j: int, x: String| x@);
    let last: String = s.substring_char(start, n).to_owned();
    out.push(last);
    proof {
        let post = out@.map(|j: int, x: String| x@);
        assert(post =~= pre_map.push(s@.subrange(start as int, n as int)));
        assert(post =~= spec_split_lines(s@));
        assert(s@.take(n as int) =~= s@);
    }
    out
}

// ---------------------------------------------------------------------------
// One structured message.
// ---------------------------------------------------------------------------

/// What one structured build message contributes to the build report.
pub struct BuildMessage {
    /// `Some(success)` when the message is the terminal "build finished"
    /// outcome; the flag defaults to false when the message lacks it.
    pub finished: Option<bool>,
    /// The message's rendered diagnostic text, when it has a non-empty one.
    pub rendered: Option<String>,
}

/// The abstract value of a [`BuildMessage`].
#[verifier::ext_equal]
pub ghost struct MessageView {
    pub finished: Option<bool>,
    pub rendered: Option<Seq<char>>,
}

impl View for BuildMessage {
    type V = MessageView;

    open spec fn view(&self) -> MessageView {
        MessageView {
            finished: self.finished,
            rendered: match self.rendered {
                Some(ref s) => Some(s@),
                None => None,
            },
        }
    }
}

/// Whether `serde_json` accepts the text as one JSON value.
pub uninterp spec fn json_parses(s: Seq<char>) -> bool;

/// The terminal flag a parsable line carries: `Some(success)` when its
/// `reason` is "build-finished" (with a missing or non-boolean `success`
/// counting as false), `None` otherwise. A function of the text alone.
pub uninterp spec fn msg_finished_of(line: Seq<char>) -> Option<bool>;

/// The non-empty `message.rendered` text of a parsable line, if it has one.
/// A function of the text alone.
pub uninterp spec fn msg_rendered_of(line: Seq<char>) -> Option<Seq<char>>;

/// Relies on `serde_json`: `from_str::<Value>` (a deterministic parse that
/// returns `Err` on malformed or over-deep input), and `Value::get`,
/// `Value::as_str`, `Value::as_bool` to read the `reason`, `success` and
/// `message.rendered` fields, exactly as `msg_finished_of` and
/// `msg_rendered_of` name them.
#[verifier::external_body]
fn read_message(line: &str) -> (r: Option<BuildMessage>)
    ensures
        r is Some <==> json_parses(line@),
        match r {
            Some(m) => m@.finished == msg_finished_of(line@) && m@.rendered == msg_rendered_of(
                line@,
            ),
            None => true,
        },
{
    let v: serde_json::Value = match serde_json::from_str(line) {
        Ok(v) => v,
        Err(_) => return None,
    };
    let finished = match v.get("reason").and_then(|r| r.as_str()) {
        Some("build-finished") => Some(v.get("success").and_then(|s| s.as_bool()).unwrap_or(false)),
        _ => None,
    };
    let rendered = v.get("message").and_then(|m| m.get("rendered")).and_then(|r| r.as_str())
        .filter(|t| !t.is_empty()).map(|t| t.to_string());
    Some(BuildMessage { finished, rendered })
}

/// What one output line contributes: `None` for noise (too short, or not a
/// JSON value), otherwise the line's terminal flag and rendered text.
pub open spec fn spec_message_of(line: Seq<char>) -> Option<MessageView> {
    if line.len() >= 2 && json_parses(line) {
        Some(MessageView { finished: msg_finished_of(line), rendered: msg_rendered_of(line) })
    } else {
        None
    }
}

/// Read one output line as a structured message: too-short lines and
/// unparsable lines are noise, a "build-finished" `reason` carries the
/// outcome, and a non-empty `message.rendered` text is kept for the report.
pub fn parse_message(line: &str) -> (r: Option<BuildMessage>)
    ensures
        match r {
            Some(m) => spec_message_of(line@) == Some(m@),
            None => spec_message_of(line@) is None,
        },
{
    if line.unicode_len() < 2 {
        return None;
    }
    read_message(line)
}

// ---------------------------------------------------------------------------
// The accumulated report.
// ---------------------------------------------------------------------------

/// The final build outcome: the flag of the last terminal message, false when
/// there is none.
pub open spec fn spec_success(msgs: Seq<MessageView>) -> bool
    decreases msgs.len(),
{
    if msgs.len() == 0 {
        false
    } else {
        match msgs.last().finished {
            Some(b) => b,
            None => spec_success(msgs.drop_last()),
        }
    }
}

/// The accumulated diagnostics: every rendered text, joined with one newline
/// between each pair.
pub open spec fn spec_diagnostics(msgs: Seq<MessageView>) -> Seq<char>
    decreases msgs.len(),
{
    if msgs.len() == 0 {
        Seq::empty()
    } else {
        let rest = spec_diagnostics(msgs.drop_last());
        match msgs.last().rendered {
            Some(r) => if rest.len() > 0 {
                rest + seq!['\n'] + r
            } else {
                r
            },
            None => rest,
        }
    }
}

/// The structured messages of a line sequence, noise dropped, in order.
pub open spec fn spec_messages_of(ls: Seq<Seq<char>>) -> Seq<MessageView>
    decreases ls.len(),
{
    if ls.len() == 0 {
        Seq::empty()
    } else {
        let rest = spec_messages_of(ls.drop_last());
        match spec_message_of(ls.last()) {
            Some(m) => rest.push(m),
            None => rest,
        }
    }
}

/// The whole report of a captured output: the outcome flag and the
/// accumulated diagnostics of its lines' messages.
pub open spec fn spec_build_report(output: Seq<char>) -> (bool, Seq<char>) {
    (
        spec_success(spec_messages_of(spec_split_lines(output))),
        spec_diagnostics(spec_messages_of(spec_split_lines(output))),
    )
}

/// Fold a sequence of structured messages into the final outcome flag and the
/// accumulated diagnostics text.
pub fn summarize_messages(msgs: &Vec<BuildMessage>) -> (r: (bool, String))
    ensures
        r.0 == spec_success(msgs@.map(|i: int, m: BuildMessage| m@)),
        r.1@ == spec_diagnostics(msgs@.map(|i: int, m: BuildMessage| m@)),
{
    let ghost all = msgs@.map(|i: int, m: BuildMessage| m@);
    let mut success: bool = false;
    let mut out: String = String::new();
    let n = msgs.len();
    for i in 0..n
        invariant
            n == msgs@.len(),
            success == spec_success(all.take(i as int)),
            out@ == spec_diagnostics(all.take(i as int)),
            all == msgs@.map(|j: int, m: BuildMessage| m@),
    {
        proof {
            assert(all.take(i as int + 1).drop_last() =~= all.take(i as int));
            assert(all.take(i as int + 1).last() == all[i as int]);
        }
        match &msgs[i].finished {
            Some(b) => {
                success = *b;
            },
            None => {},
        }
        match &msgs[i].rendered {
            Some(r) => {
                let ghost prev = out@;
                if !out.as_str().is_empty() {
                    proof {
                        reveal_strlit("\n");
                    }
                    out.append("\n");
                    out.append(r.as_str());
                    proof {
                        assert(out@ =~= prev + seq!['\n'] + r@);
                    }
                } else {
                    out.append(r.as_str());
                    proof {
                        assert(prev =~= Seq::<char>::empty());
                        assert(out@ =~= r@);
                    }
                }
            },
            None => {},
        }
    }
    proof {
        assert(all.take(n as int) =~= all);
    }
    (success, out)
}

/// Read the build tool's entire captured output: split it into lines, read
/// each structured message, and fold them into the outcome flag and the
/// diagnostics text — exactly `spec_build_report` of the output.
pub fn parse_build_output(output: &str) -> (r: (bool, String))
    ensures
        r.0 == spec_build_report(output@).0,
        r.1@ == spec_build_report(output@).1,
{
    let lines = split_lines(output);
    let ghost ls = lines@.map(|j: int, x: String| x@);
    let mut msgs: Vec<BuildMessage> = Vec::new();
    let n = lines.len();
    proof {
        assert(msgs@.map(|j: int, m: BuildMessage| m@) =~= spec_messages_of(ls.take(0)));
    }
    for i in 0..n
        invariant
            n == lines@.len(),
            ls == lines@.map(|j: int, x: String| x@),
            msgs@.map(|j: int, m: BuildMessage| m@) == spec_messages_of(ls.take(i as int)),
    {
        proof {
            assert(ls.take(i as int + 1).drop_last() =~= ls.take(i as int));
            assert(ls.take(i as int + 1).last() == ls[i as int]);
        }
        let ghost pre = msgs@.map(|j: int, m: BuildMessage| m@);
        match parse_message(lines[i].as_str()) {
            Some(m) => {
                proof {
                    assert(spec_message_of(ls[i as int]) == Some(m@));
                }
                msgs.push(m);
                proof {
                    assert(msgs@.map(|j: int, m2: BuildMessage| m2@) =~= pre.push(m@));
                }
            },
            None => {
                proof {
                    assert(spec_message_of(ls[i as int]) is None);
                }
            },
        }
    }
    proof {
        assert(ls.take(n as int) =~= ls);
        assert(ls == spec_split_lines(output@));
    }
    summarize_messages(&msgs)
}

// ---------------------------------------------------------------------------
// Manifest rewriting at scaffold time.
// ---------------------------------------------------------------------------

/// Whether the text is a TOML document the editor accepts whose `package`
/// item is a table, can become one, or is absent — i.e. whether the declared
/// package name can be rewritten.
pub uninterp spec fn manifest_renameable(s: Seq<char>) -> bool;

/// The manifest text with its `package.name` entry set to `name`, formatting
/// preserved. A function of the two texts alone.
pub uninterp spec fn manifest_renamed_of(manifest: Seq<char>, name: Seq<char>) -> Seq<char>;

/// Relies on `toml_edit`: `DocumentMut`'s `FromStr` (a deterministic parse
/// that returns `Err` on bad input), its `IndexMut` (the root is always a
/// table, so indexing it never panics and inserts a `None` item for a missing
/// key), `Item::as_table_like_mut`, `TableLike::insert` and the `Display`
/// rendering — together the rewrite that `manifest_renameable` and
/// `manifest_renamed_of` name. Where the manifest's `package` item is a
/// non-table value, this returns `None` instead of panicking.
#[verifier::external_body]
fn rename_manifest(manifest: &str, name: &str) -> (r: Option<String>)
    ensures
        r is Some <==> manifest_renameable(manifest@),
        match r {
            Some(s) => s@ == manifest_renamed_of(manifest@, name@),
            None => true,
        },
{
    let mut doc: toml_edit::DocumentMut = match manifest.parse() {
        Ok(d) => d,
        Err(_) => return None,
    };
    let item = &mut doc["package"];
    if item.is_none() {
        *item = toml_edit::table();
    }
    match item.as_table_like_mut() {
        Some(tbl) => {
            tbl.insert("name", toml_edit::value(name));
            Some(doc.to_string())
        },
        None => None,
    }
}

/// Rewrite a scaffolded manifest's declared package name to the profile's
/// name: exactly `manifest_renamed_of`, succeeding precisely on the texts
/// `manifest_renameable` admits.
pub fn rewrite_manifest_name(manifest: &str, name: &str) -> (r: Option<String>)
    ensures
        r is Some <==> manifest_renameable(manifest@),
        match r {
            Some(s) => s@ == manifest_renamed_of(manifest@, name@),
            None => true,
        },
{
    rename_manifest(manifest, name)
}

} // verus!
