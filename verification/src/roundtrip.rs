//! Writing a request out and reading it back gives the same request.

use vstd::prelude::*;
use crate::grammar::{
    blank_index, body_block, defect, header_block, header_name, header_value, headers_of,
    is_blank, is_header, join, request_headers, tokens,
};
use crate::headers::{collected, Field};
use crate::parser;
use crate::request;
use crate::text::{
    after, before, has_char, is_trimmed, is_whitespace, lemma_index_of,
    lemma_index_of_unique, lemma_leading_whitespace_unique, lemma_lines_unfold,
    lemma_split_unfold, lemma_trailing_whitespace_unique, lemma_trim, lines, split,
    split_inclusive, trim, trim_start,
};

verus! {

/// A token of the request line: it holds neither a space nor a line feed.
pub open spec fn is_token(token: Seq<char>) -> bool {
    !has_char(token, ' ') && !has_char(token, '\n')
}

/// A header field that can be written on one line and read back: name and
/// value are trimmed and hold no line feed, and the name holds no colon.
pub open spec fn is_field(field: Field) -> bool {
    &&& is_trimmed(field.0)
    &&& is_trimmed(field.1)
    &&& !has_char(field.0, ':')
    &&& !has_char(field.0, '\n')
    &&& !has_char(field.1, '\n')
}

/// A header field as it stands on its line, without the line ending.
pub open spec fn field_text(field: Field) -> Seq<char> {
    field.0 + ": "@ + field.1
}

/// The header fields, each on a line of its own.
pub open spec fn field_lines(fields: Seq<Field>) -> Seq<char>
    decreases fields.len(),
{
    if fields.len() == 0 {
        Seq::empty()
    } else {
        field_text(fields[0]) + "\r\n"@ + field_lines(fields.drop_first())
    }
}

/// A request written out: the request line, the header lines, a blank
/// line, the body.
pub open spec fn request_text(
    method: Seq<char>,
    target: Seq<char>,
    version: Seq<char>,
    fields: Seq<Field>,
    body: Seq<char>,
) -> Seq<char> {
    method + " "@ + target + " "@ + version + "\r\n"@ + field_lines(fields) + "\r\n"@ + body
}

/// What the string literals of this module hold.
proof fn lemma_literals()
    ensures
        " "@ == seq![' '],
        "\r\n"@ == seq!['\r', '\n'],
        ": "@ == seq![':', ' '],
        is_whitespace(' '),
        !is_whitespace(':'),
{
    reveal_strlit(" ");
    reveal_strlit("\r\n");
    reveal_strlit(": ");
    assert(" "@ =~= seq![' ']);
    assert("\r\n"@ =~= seq!['\r', '\n']);
    assert(": "@ =~= seq![':', ' ']);
}

/// A line that holds no line feed, written with its line ending before
/// `rest`, is the first line of the whole, and the lines of `rest` follow.
proof fn lemma_first_line(line: Seq<char>, rest: Seq<char>)
    requires
        !has_char(line, '\n'),
    ensures
        lines(line + "\r\n"@ + rest) == seq![line] + lines(rest),
{
    lemma_literals();
    let whole = line + "\r\n"@ + rest;
    lemma_index_of(line, '\n');
    assert forall|j: int| 0 <= j < line.len() + 1 implies whole[j] != '\n' by {
        if j < line.len() {
            assert(whole[j] == line[j]);
        }
    }
    lemma_index_of_unique(whole, '\n', (line.len() + 1) as int);
    lemma_lines_unfold(whole);
    let raw = whole.take((line.len() + 2) as int);
    assert(raw =~= line + seq!['\r', '\n']);
    assert(raw.drop_last() =~= line + seq!['\r']);
    assert(raw.drop_last().drop_last() =~= line);
    assert(after(whole, '\n') =~= rest);
}

/// A text without a line feed is its own only line, if it is not empty.
proof fn lemma_last_line(body: Seq<char>)
    requires
        !has_char(body, '\n'),
    ensures
        lines(body) == if body.len() == 0 {
            Seq::<Seq<char>>::empty()
        } else {
            seq![body]
        },
        join(lines(body)) == body,
        lines(body).len() <= 1,
{
    lemma_lines_unfold(body);
    if body.len() > 0 {
        assert(seq![body].drop_last() =~= Seq::<Seq<char>>::empty());
        assert(join(Seq::<Seq<char>>::empty()) =~= Seq::<char>::empty());
        assert(join(seq![body]) =~= body);
    } else {
        assert(join(lines(body)) =~= body);
    }
}

/// Three tokens joined by single spaces split into just these tokens.
proof fn lemma_three_tokens(method: Seq<char>, target: Seq<char>, version: Seq<char>)
    requires
        !has_char(method, ' '),
        !has_char(target, ' '),
        !has_char(version, ' '),
    ensures
        split(method + " "@ + target + " "@ + version, ' ') == seq![method, target, version],
{
    lemma_literals();
    let line = method + " "@ + target + " "@ + version;
    let rest = target + " "@ + version;
    lemma_index_of(method, ' ');
    lemma_index_of(target, ' ');
    lemma_index_of(version, ' ');
    assert forall|j: int| 0 <= j < method.len() implies line[j] != ' ' by {
        assert(line[j] == method[j]);
    }
    assert(line[method.len() as int] == ' ');
    lemma_index_of_unique(line, ' ', method.len() as int);
    assert(before(line, ' ') =~= method);
    assert(after(line, ' ') =~= rest);
    assert forall|j: int| 0 <= j < target.len() implies rest[j] != ' ' by {
        assert(rest[j] == target[j]);
    }
    assert(rest[target.len() as int] == ' ');
    lemma_index_of_unique(rest, ' ', target.len() as int);
    assert(before(rest, ' ') =~= target);
    assert(after(rest, ' ') =~= version);
    lemma_split_unfold(line, ' ');
    lemma_split_unfold(rest, ' ');
    lemma_split_unfold(version, ' ');
    assert(split(version, ' ') =~= seq![version]);
    assert(split(rest, ' ') =~= seq![target, version]);
    assert(split(line, ' ') =~= seq![method, target, version]);
}

/// A field's line is not blank, is a header line, and names the field's name
/// and value.
proof fn lemma_field_text(field: Field)
    requires
        is_field(field),
    ensures
        !has_char(field_text(field), '\n'),
        !is_blank(field_text(field)),
        is_header(field_text(field)),
        header_name(field_text(field)) == field.0,
        header_value(field_text(field)) == field.1,
{
    lemma_literals();
    let name = field.0;
    let value = field.1;
    let line = field_text(field);
    lemma_index_of(name, '\n');
    lemma_index_of(value, '\n');
    lemma_index_of(name, ':');
    assert forall|j: int| 0 <= j < line.len() implies line[j] != '\n' by {
        if j < name.len() {
            assert(line[j] == name[j]);
        } else if j >= name.len() + 2 {
            assert(line[j] == value[j - name.len() - 2]);
        }
    }
    lemma_index_of_unique(line, '\n', line.len() as int);
    // What trimming leaves of the line.
    let kept = if value.len() == 0 {
        name + seq![':']
    } else {
        line
    };
    assert(line[0] == if name.len() > 0 {
        name[0]
    } else {
        ':'
    });
    lemma_leading_whitespace_unique(line, 0);
    assert(trim_start(line) =~= line);
    if value.len() == 0 {
        assert(line.last() == ' ');
        assert(line[line.len() - 2] == ':');
        lemma_trailing_whitespace_unique(line, 1);
        assert(trim(line) =~= kept);
    } else {
        assert(line.last() == value.last());
        lemma_trim(line);
    }
    assert(trim(line) == kept);
    assert forall|j: int| 0 <= j < name.len() implies kept[j] != ':' by {
        assert(kept[j] == name[j]);
    }
    assert(kept[name.len() as int] == ':');
    lemma_index_of_unique(kept, ':', name.len() as int);
    assert(before(kept, ':') =~= name);
    lemma_trim(name);
    let tail = after(kept, ':');
    if value.len() == 0 {
        assert(tail =~= Seq::<char>::empty());
        lemma_trim(tail);
        assert(trim(tail) =~= value);
    } else {
        assert(tail =~= seq![' '] + value);
        assert(tail[1] == value[0]);
        lemma_leading_whitespace_unique(tail, 1);
        assert(trim_start(tail) =~= value);
        lemma_trim(value);
    }
}

/// What the lines of written-out fields are, and what they say.
proof fn lemma_field_lines(fields: Seq<Field>, rest: Seq<char>)
    requires
        forall|i: int| 0 <= i < fields.len() ==> is_field(#[trigger] fields[i]),
    ensures
        lines(field_lines(fields) + rest) == fields.map_values(|field: Field| field_text(field))
            + lines(rest),
    decreases fields.len(),
{
    let texts = fields.map_values(|field: Field| field_text(field));
    if fields.len() == 0 {
        assert(field_lines(fields) + rest =~= rest);
        assert(texts + lines(rest) =~= lines(rest));
    } else {
        let others = fields.drop_first();
        assert forall|i: int| 0 <= i < others.len() implies is_field(#[trigger] others[i]) by {
            assert(others[i] == fields[i + 1]);
        }
        lemma_field_lines(others, rest);
        lemma_field_text(fields[0]);
        lemma_first_line(field_text(fields[0]), field_lines(others) + rest);
        assert(field_lines(fields) + rest =~= field_text(fields[0]) + "\r\n"@ + (field_lines(others)
            + rest));
        assert(texts =~= seq![field_text(fields[0])] + others.map_values(
            |field: Field| field_text(field),
        ));
        assert(texts + lines(rest) =~= seq![field_text(fields[0])] + (others.map_values(
            |field: Field| field_text(field),
        ) + lines(rest)));
    }
}

/// The lines of written-out fields set the fields, the later of two with
/// one name counting.
proof fn lemma_headers_of_fields(fields: Seq<Field>)
    requires
        forall|i: int| 0 <= i < fields.len() ==> is_field(#[trigger] fields[i]),
    ensures
        headers_of(fields.map_values(|field: Field| field_text(field))) == collected(fields),
    decreases fields.len(),
{
    let texts = fields.map_values(|field: Field| field_text(field));
    if fields.len() > 0 {
        let others = fields.drop_last();
        assert forall|i: int| 0 <= i < others.len() implies is_field(#[trigger] others[i]) by {
            assert(others[i] == fields[i]);
        }
        lemma_headers_of_fields(others);
        lemma_field_text(fields.last());
        assert(texts.drop_last() =~= others.map_values(|field: Field| field_text(field)));
        assert(texts.last() == field_text(fields.last()));
    }
}

/// A request that is written out from tokens, fields and a one-line body
/// reads back without defect and as exactly these: method, target and
/// version as given, each header name with the value last given for it, and
/// the body as given.
pub proof fn lemma_round_trip(
    method: Seq<char>,
    target: Seq<char>,
    version: Seq<char>,
    fields: Seq<Field>,
    body: Seq<char>,
)
    requires
        is_token(method),
        is_token(target),
        is_token(version),
        forall|i: int| 0 <= i < fields.len() ==> is_field(#[trigger] fields[i]),
        !has_char(body, '\n'),
    ensures
        ({
            let text = request_text(method, target, version, fields, body);
            &&& defect(text) is None
            &&& parser::parsed(text) == (parser::RequestView {
                method,
                target,
                version,
                headers: collected(fields),
                body,
            })
            &&& request::parsed(text) == (request::RequestView {
                method,
                uri: split_inclusive(target, '/'),
                version,
                headers: collected(fields),
                body,
            })
        }),
{
    lemma_literals();
    let text = request_text(method, target, version, fields, body);
    let first = method + " "@ + target + " "@ + version;
    let texts = fields.map_values(|field: Field| field_text(field));
    let blank = Seq::<char>::empty();
    // The lines of the text.
    lemma_index_of(method, '\n');
    lemma_index_of(target, '\n');
    lemma_index_of(version, '\n');
    assert forall|j: int| 0 <= j < first.len() implies first[j] != '\n' by {
        if j < method.len() {
            assert(first[j] == method[j]);
        } else if j == method.len() {
        } else if j < method.len() + 1 + target.len() {
            assert(first[j] == target[j - method.len() - 1]);
        } else if j == method.len() + 1 + target.len() {
        } else {
            assert(first[j] == version[j - method.len() - target.len() - 2]);
        }
    }
    lemma_index_of_unique(first, '\n', first.len() as int);
    let below = field_lines(fields) + ("\r\n"@ + body);
    assert(text =~= first + "\r\n"@ + below);
    lemma_first_line(first, below);
    lemma_field_lines(fields, "\r\n"@ + body);
    assert("\r\n"@ + body =~= blank + "\r\n"@ + body);
    lemma_index_of_unique(blank, '\n', 0);
    lemma_first_line(blank, body);
    lemma_last_line(body);
    let rows = texts + (seq![blank] + lines(body));
    assert(lines(text) == seq![first] + rows);
    assert(lines(text).skip(1) =~= rows);
    // The request line.
    lemma_three_tokens(method, target, version);
    assert(first.len() > 0);
    assert(tokens(text) == seq![method, target, version]);
    // The header lines.
    let flags = rows.map_values(|row: Seq<char>| is_blank(row));
    assert forall|j: int| 0 <= j < fields.len() implies flags[j] != true by {
        assert(rows[j] == field_text(fields[j]));
        lemma_field_text(fields[j]);
    }
    lemma_trim(blank);
    assert(rows[fields.len() as int] == blank);
    assert(flags[fields.len() as int] == true);
    lemma_index_of_unique(flags, true, fields.len() as int);
    assert(blank_index(rows) == fields.len());
    assert(header_block(text) =~= texts);
    assert forall|i: int| 0 <= i < header_block(text).len() implies is_header(
        #[trigger] header_block(text)[i],
    ) by {
        lemma_field_text(fields[i]);
    }
    lemma_headers_of_fields(fields);
    assert(request_headers(text) == collected(fields));
    // The body.
    assert(body_block(text) =~= lines(body));
}

} // verus!
