//! The CSV text the library writes (comma-separated fields, `\n` after each
//! record, fields quoted only where needed), and a reader for it: reading
//! the text back gives the records that were written.
use vstd::prelude::*;
use vstd::utf8::{decode_utf8, encode_utf8, encode_utf8_decode_utf8};

verus! {

/// Characters that force a field to be quoted.
pub open spec fn csv_special(c: char) -> bool {
    c == ',' || c == '"' || c == '\r' || c == '\n'
}

/// A field must be quoted when it holds a special character.
pub open spec fn csv_needs_quotes(f: Seq<char>) -> bool {
    exists|i: int| 0 <= i < f.len() && csv_special(#[trigger] f[i])
}

/// The field with every `"` doubled.
pub open spec fn csv_double_quotes(f: Seq<char>) -> Seq<char>
    decreases f.len(),
{
    if f.len() == 0 {
        f
    } else {
        (if f[0] == '"' {
            seq!['"', '"']
        } else {
            seq![f[0]]
        }) + csv_double_quotes(f.drop_first())
    }
}

/// A field as written: as it is, or in quotes with its quotes doubled.
pub open spec fn csv_field_text(f: Seq<char>) -> Seq<char> {
    if csv_needs_quotes(f) {
        seq!['"'] + csv_double_quotes(f) + seq!['"']
    } else {
        f
    }
}

/// Fields as written, separated by commas.
pub open spec fn csv_fields_text(fs: Seq<Seq<char>>) -> Seq<char>
    decreases fs.len(),
{
    if fs.len() == 0 {
        Seq::empty()
    } else if fs.len() == 1 {
        csv_field_text(fs[0])
    } else {
        csv_fields_text(fs.drop_last()) + seq![','] + csv_field_text(fs.last())
    }
}

/// A record as written: its fields, then `\n`. A record without fields, or
/// with one empty field, is written as `""`.
pub open spec fn csv_record_text(fs: Seq<Seq<char>>) -> Seq<char> {
    if fs.len() == 0 || (fs.len() == 1 && fs[0].len() == 0) {
        seq!['"', '"', '\n']
    } else {
        csv_fields_text(fs) + seq!['\n']
    }
}

/// The bytes of a record as written: its text in UTF-8.
pub open spec fn csv_record_bytes(fs: Seq<Seq<char>>) -> Seq<u8> {
    encode_utf8(csv_record_text(fs))
}

/// Records as written, one after the other.
pub open spec fn csv_document_text(records: Seq<Seq<Seq<char>>>) -> Seq<char>
    decreases records.len(),
{
    if records.len() == 0 {
        Seq::empty()
    } else {
        csv_document_text(records.drop_last()) + csv_record_text(records.last())
    }
}

/// Where the reader stands within a field.
pub enum ReadState {
    /// At the start of a field.
    FieldStart,
    /// Inside a field without quotes.
    Unquoted,
    /// Inside a quoted field.
    Quoted,
    /// Just after a quote inside a quoted field.
    QuoteSeen,
}

/// Reads the rest `t` of a CSV text, given the reader's state, the field
/// and record read so far, and the records already complete. A `"` at the
/// start of a field opens a quoted field, in which `""` stands for `"`;
/// `,` ends a field and `\n` ends a record outside quotes.
pub open spec fn csv_scan(
    t: Seq<char>,
    state: ReadState,
    field: Seq<char>,
    record: Seq<Seq<char>>,
    done: Seq<Seq<Seq<char>>>,
) -> Seq<Seq<Seq<char>>>
    decreases t.len(),
{
    if t.len() == 0 {
        match state {
            ReadState::FieldStart => if record.len() == 0 {
                done
            } else {
                done.push(record.push(field))
            },
            _ => done.push(record.push(field)),
        }
    } else {
        let c = t[0];
        let r = t.drop_first();
        match state {
            ReadState::Quoted => if c == '"' {
                csv_scan(r, ReadState::QuoteSeen, field, record, done)
            } else {
                csv_scan(r, ReadState::Quoted, field.push(c), record, done)
            },
            ReadState::QuoteSeen => if c == '"' {
                csv_scan(r, ReadState::Quoted, field.push(c), record, done)
            } else if c == ',' {
                csv_scan(r, ReadState::FieldStart, Seq::empty(), record.push(field), done)
            } else if c == '\n' {
                csv_scan(r, ReadState::FieldStart, Seq::empty(), Seq::empty(), done.push(record.push(field)))
            } else {
                csv_scan(r, ReadState::Unquoted, field.push(c), record, done)
            },
            _ => if c == '"' && state is FieldStart {
                csv_scan(r, ReadState::Quoted, field, record, done)
            } else if c == ',' {
                csv_scan(r, ReadState::FieldStart, Seq::empty(), record.push(field), done)
            } else if c == '\n' {
                csv_scan(r, ReadState::FieldStart, Seq::empty(), Seq::empty(), done.push(record.push(field)))
            } else {
                csv_scan(r, ReadState::Unquoted, field.push(c), record, done)
            },
        }
    }
}

/// The records of a CSV text.
pub open spec fn csv_parse(t: Seq<char>) -> Seq<Seq<Seq<char>>> {
    csv_scan(t, ReadState::FieldStart, Seq::empty(), Seq::empty(), Seq::empty())
}


/// UTF-8 encoding distributes over concatenation.
pub proof fn lemma_encode_utf8_concat(a: Seq<char>, b: Seq<char>)
    ensures
        encode_utf8(a + b) == encode_utf8(a) + encode_utf8(b),
    decreases a.len(),
{
    if a.len() == 0 {
        assert(a + b =~= b);
    } else {
        assert((a + b).drop_first() =~= a.drop_first() + b);
        assert((a + b)[0] == a[0]);
        lemma_encode_utf8_concat(a.drop_first(), b);
    }
}

/// Reading characters that are not special inside an unquoted field adds
/// them to the field.
proof fn lemma_scan_plain(
    g: Seq<char>,
    t: Seq<char>,
    field: Seq<char>,
    record: Seq<Seq<char>>,
    done: Seq<Seq<Seq<char>>>,
)
    requires
        forall|i: int| 0 <= i < g.len() ==> !csv_special(#[trigger] g[i]),
    ensures
        csv_scan(g + t, ReadState::Unquoted, field, record, done) == csv_scan(t, ReadState::Unquoted, field + g, record, done),
    decreases g.len(),
{
    if g.len() == 0 {
        assert(g + t =~= t);
        assert(field + g =~= field);
    } else {
        assert((g + t)[0] == g[0]);
        assert((g + t).drop_first() =~= g.drop_first() + t);
        assert(!csv_special(g[0]));
        lemma_scan_plain(g.drop_first(), t, field.push(g[0]), record, done);
        assert(field.push(g[0]) + g.drop_first() =~= field + g);
    }
}

/// Reading a quoted field's body, its quotes doubled, adds the field's
/// characters.
proof fn lemma_scan_quoted_body(
    f: Seq<char>,
    t: Seq<char>,
    field: Seq<char>,
    record: Seq<Seq<char>>,
    done: Seq<Seq<Seq<char>>>,
)
    ensures
        csv_scan(csv_double_quotes(f) + t, ReadState::Quoted, field, record, done) == csv_scan(
            t,
            ReadState::Quoted,
            field + f,
            record,
            done,
        ),
    decreases f.len(),
{
    if f.len() == 0 {
        assert(csv_double_quotes(f) + t =~= t);
        assert(field + f =~= field);
    } else {
        let rest = f.drop_first();
        lemma_scan_quoted_body(rest, t, field.push(f[0]), record, done);
        assert(field.push(f[0]) + rest =~= field + f);
        let u = csv_double_quotes(rest) + t;
        if f[0] == '"' {
            let x = csv_double_quotes(f) + t;
            assert(x =~= seq!['"', '"'] + u);
            assert(x[0] == '"');
            let x1 = x.drop_first();
            assert(x1 =~= seq!['"'] + u);
            assert(x1[0] == '"');
            assert(x1.drop_first() =~= u);
            assert(csv_scan(x, ReadState::Quoted, field, record, done) == csv_scan(
                x1,
                ReadState::QuoteSeen,
                field,
                record,
                done,
            ));
            assert(csv_scan(x1, ReadState::QuoteSeen, field, record, done) == csv_scan(
                u,
                ReadState::Quoted,
                field.push(f[0]),
                record,
                done,
            ));
        } else {
            let x = csv_double_quotes(f) + t;
            assert(x =~= seq![f[0]] + u);
            assert(x[0] == f[0]);
            assert(x.drop_first() =~= u);
            assert(csv_scan(x, ReadState::Quoted, field, record, done) == csv_scan(
                u,
                ReadState::Quoted,
                field.push(f[0]),
                record,
                done,
            ));
        }
    }
}

/// What the reader does with a separator `c` after a field.
pub open spec fn csv_after_separator(
    c: char,
    t: Seq<char>,
    record: Seq<Seq<char>>,
    done: Seq<Seq<Seq<char>>>,
) -> Seq<Seq<Seq<char>>> {
    if c == ',' {
        csv_scan(t, ReadState::FieldStart, Seq::empty(), record, done)
    } else {
        csv_scan(t, ReadState::FieldStart, Seq::empty(), Seq::empty(), done.push(record))
    }
}

/// Reading a written field followed by `,` or `\n` gives back the field.
proof fn lemma_scan_field(f: Seq<char>, c: char, t: Seq<char>, record: Seq<Seq<char>>, done: Seq<Seq<Seq<char>>>)
    requires
        c == ',' || c == '\n',
    ensures
        csv_scan(csv_field_text(f) + seq![c] + t, ReadState::FieldStart, Seq::empty(), record, done)
            == csv_after_separator(c, t, record.push(f), done),
{
    let ct = seq![c] + t;
    assert(ct[0] == c);
    assert(ct.drop_first() =~= t);
    if csv_needs_quotes(f) {
        let x = csv_field_text(f) + seq![c] + t;
        let body = csv_double_quotes(f) + (seq!['"'] + ct);
        assert(x =~= seq!['"'] + body);
        assert(x[0] == '"');
        assert(x.drop_first() =~= body);
        lemma_scan_quoted_body(f, seq!['"'] + ct, Seq::empty(), record, done);
        assert(Seq::<char>::empty() + f =~= f);
        let q = seq!['"'] + ct;
        assert(q[0] == '"');
        assert(q.drop_first() =~= ct);
        assert(csv_scan(x, ReadState::FieldStart, Seq::empty(), record, done) == csv_scan(
            body,
            ReadState::Quoted,
            Seq::empty(),
            record,
            done,
        ));
        assert(csv_scan(q, ReadState::Quoted, f, record, done) == csv_scan(ct, ReadState::QuoteSeen, f, record, done));
        assert(csv_scan(ct, ReadState::QuoteSeen, f, record, done) == csv_after_separator(c, t, record.push(f), done));
    } else {
        assert(forall|i: int| 0 <= i < f.len() ==> !csv_special(#[trigger] f[i]));
        if f.len() == 0 {
            assert(csv_field_text(f) + seq![c] + t =~= ct);
            assert(f =~= Seq::<char>::empty());
            assert(csv_scan(ct, ReadState::FieldStart, Seq::empty(), record, done) == csv_after_separator(
                c,
                t,
                record.push(f),
                done,
            ));
        } else {
            let x = csv_field_text(f) + seq![c] + t;
            let rest = f.drop_first();
            assert(x =~= seq![f[0]] + (rest + ct));
            assert(x[0] == f[0]);
            assert(x.drop_first() =~= rest + ct);
            assert(!csv_special(f[0]));
            assert forall|i: int| 0 <= i < rest.len() implies !csv_special(#[trigger] rest[i]) by {
                assert(rest[i] == f[i + 1]);
            }
            lemma_scan_plain(rest, ct, seq![f[0]], record, done);
            assert(seq![f[0]] + rest =~= f);
            assert(Seq::<char>::empty().push(f[0]) =~= seq![f[0]]);
            assert(csv_scan(x, ReadState::FieldStart, Seq::empty(), record, done) == csv_scan(
                rest + ct,
                ReadState::Unquoted,
                seq![f[0]],
                record,
                done,
            ));
            assert(csv_scan(ct, ReadState::Unquoted, f, record, done) == csv_after_separator(c, t, record.push(f), done));
        }
    }
}

/// Reading written fields followed by `,` or `\n` gives back the fields.
proof fn lemma_scan_fields(
    fs: Seq<Seq<char>>,
    c: char,
    t: Seq<char>,
    record: Seq<Seq<char>>,
    done: Seq<Seq<Seq<char>>>,
)
    requires
        c == ',' || c == '\n',
        fs.len() >= 1,
    ensures
        csv_scan(csv_fields_text(fs) + seq![c] + t, ReadState::FieldStart, Seq::empty(), record, done)
            == csv_after_separator(c, t, record + fs, done),
    decreases fs.len(),
{
    if fs.len() == 1 {
        lemma_scan_field(fs[0], c, t, record, done);
        assert(record.push(fs[0]) =~= record + fs);
    } else {
        let init = fs.drop_last();
        let last = fs.last();
        let tail = csv_field_text(last) + seq![c] + t;
        assert(csv_fields_text(fs) + seq![c] + t =~= csv_fields_text(init) + seq![','] + tail);
        lemma_scan_fields(init, ',', tail, record, done);
        lemma_scan_field(last, c, t, record + init, done);
        assert((record + init).push(last) =~= record + fs);
    }
}

/// Reading a written record with at least one field gives it back.
proof fn lemma_scan_record(fs: Seq<Seq<char>>, t: Seq<char>, done: Seq<Seq<Seq<char>>>)
    requires
        fs.len() >= 1,
    ensures
        csv_scan(csv_record_text(fs) + t, ReadState::FieldStart, Seq::empty(), Seq::empty(), done)
            == csv_scan(t, ReadState::FieldStart, Seq::empty(), Seq::empty(), done.push(fs)),
{
    if fs.len() == 1 && fs[0].len() == 0 {
        let x = csv_record_text(fs) + t;
        assert(x =~= seq!['"', '"', '\n'] + t);
        assert(x[0] == '"');
        let x1 = x.drop_first();
        assert(x1[0] == '"');
        let x2 = x1.drop_first();
        assert(x2[0] == '\n');
        assert(x2.drop_first() =~= t);
        assert(fs[0] =~= Seq::<char>::empty());
        assert(Seq::<Seq<char>>::empty().push(Seq::<char>::empty()) =~= fs);
        let e = Seq::<char>::empty();
        let er = Seq::<Seq<char>>::empty();
        assert(csv_scan(x, ReadState::FieldStart, e, er, done) == csv_scan(x1, ReadState::Quoted, e, er, done));
        assert(csv_scan(x1, ReadState::Quoted, e, er, done) == csv_scan(x2, ReadState::QuoteSeen, e, er, done));
        assert(csv_scan(x2, ReadState::QuoteSeen, e, er, done) == csv_scan(t, ReadState::FieldStart, e, er, done.push(er.push(e))));
    } else {
        lemma_scan_fields(fs, '\n', t, Seq::empty(), done);
        assert(Seq::<Seq<char>>::empty() + fs =~= fs);
    }
}

/// Reading written records, each with at least one field, gives them back.
proof fn lemma_scan_document(records: Seq<Seq<Seq<char>>>, t: Seq<char>, done: Seq<Seq<Seq<char>>>)
    requires
        forall|i: int| 0 <= i < records.len() ==> (#[trigger] records[i]).len() >= 1,
    ensures
        csv_scan(csv_document_text(records) + t, ReadState::FieldStart, Seq::empty(), Seq::empty(), done)
            == csv_scan(t, ReadState::FieldStart, Seq::empty(), Seq::empty(), done + records),
    decreases records.len(),
{
    if records.len() == 0 {
        assert(csv_document_text(records) + t =~= t);
        assert(done + records =~= done);
    } else {
        let init = records.drop_last();
        let last = records.last();
        assert(records[records.len() - 1] == last);
        assert(csv_document_text(records) + t =~= csv_document_text(init) + (csv_record_text(last) + t));
        lemma_scan_document(init, csv_record_text(last) + t, done);
        lemma_scan_record(last, t, done + init);
        assert((done + init).push(last) =~= done + records);
    }
}

/// Writing records, each with at least one field, and reading the text back
/// gives the same records: fields holding commas, quotes or line breaks come
/// back unchanged.
pub proof fn lemma_csv_round_trip(records: Seq<Seq<Seq<char>>>)
    requires
        forall|i: int| 0 <= i < records.len() ==> (#[trigger] records[i]).len() >= 1,
    ensures
        csv_parse(csv_document_text(records)) == records,
        csv_parse(decode_utf8(encode_utf8(csv_document_text(records)))) == records,
{
    lemma_scan_document(records, Seq::empty(), Seq::empty());
    assert(csv_document_text(records) + Seq::<char>::empty() =~= csv_document_text(records));
    assert(Seq::<Seq<Seq<char>>>::empty() + records =~= records);
    encode_utf8_decode_utf8(csv_document_text(records));
}

} // verus!
