//! The text of a request file: one import and one request function for each
//! interface whose declarations stand in a directory.

use crate::form_resolver::{form_interface_name, get_interface_ts_name};
use crate::schema::WebType;
use crate::template::{
    contains, has_prefix, has_substring, replace, replaced, starts_with, to_chars,
};
use crate::text::texts;
use vstd::prelude::*;

verus! {

/// The path of a directory below the declarations, written with `/`: a `/`,
/// then the path with each `\` as `/` and each `//` as `/`. Empty for the
/// directory of the declarations itself.
pub open spec fn sub_path_unix(sub_path: Option<Seq<char>>) -> Seq<char> {
    match sub_path {
        Some(path) => "/"@ + replaced(replaced(path, "\\"@, "/"@), "//"@, "/"@),
        None => Seq::empty(),
    }
}

/// What an optional text holds.
pub open spec fn text_of(s: Option<&str>) -> Option<Seq<char>> {
    match s {
        Some(s) => Some(s@),
        None => None,
    }
}

/// Whether the text of a declaration file names both sides of the interface
/// `file_name`.
pub open spec fn declares_interface(content: Seq<char>, file_name: Seq<char>) -> bool {
    has_substring(content, form_interface_name(WebType::Request, file_name)) && has_substring(
        content,
        form_interface_name(WebType::Response, file_name),
    )
}

/// Where the first line of a text ends: at its first line feed, or at its end.
pub open spec fn line_end(content: Seq<char>) -> int
    decreases content.len(),
{
    if content.len() == 0 || content[0] == '\n' {
        0
    } else {
        1 + line_end(content.skip(1))
    }
}

/// The first line of a text, without the line feed that ends it and without
/// a carriage return before that line feed.
pub open spec fn first_line(content: Seq<char>) -> Seq<char> {
    let end = line_end(content);
    if 0 < end < content.len() && content[end - 1] == '\r' {
        content.take(end - 1)
    } else {
        content.take(end)
    }
}

/// The comment of a declaration file: its first line where that begins with
/// `//`, else nothing.
pub open spec fn file_comment(content: Seq<char>) -> Seq<char> {
    if has_prefix(first_line(content), "//"@) {
        first_line(content)
    } else {
        Seq::empty()
    }
}

/// The import line for an interface: the template with `$1` as the name of
/// the request's declaration, `$2` as that of the response's, `$3` as the
/// path of the file below the declarations.
pub open spec fn import_line(
    template: Seq<char>,
    sub_path: Option<Seq<char>>,
    file_name: Seq<char>,
) -> Seq<char> {
    replaced(
        replaced(
            replaced(template, "$1"@, form_interface_name(WebType::Request, file_name)),
            "$2"@,
            form_interface_name(WebType::Response, file_name),
        ),
        "$3"@,
        sub_path_unix(sub_path) + "/"@ + file_name,
    ) + "\n"@
}

/// The request function for an interface, below the comment of its file: the
/// template with `$1` as the interface's name, `$2` and `$3` as the names of
/// its two declarations, `$4` as the path of the file below the declarations.
pub open spec fn export_block(
    template: Seq<char>,
    comment: Seq<char>,
    sub_path: Option<Seq<char>>,
    file_name: Seq<char>,
) -> Seq<char> {
    comment + "\n"@ + (replaced(
        replaced(
            replaced(
                replaced(template, "$1"@, file_name),
                "$2"@,
                form_interface_name(WebType::Request, file_name),
            ),
            "$3"@,
            form_interface_name(WebType::Response, file_name),
        ),
        "$4"@,
        sub_path_unix(sub_path) + "/"@ + file_name,
    ) + "\n"@)
}

/// The texts one after another.
pub open spec fn joined(parts: Seq<Seq<char>>) -> Seq<char>
    decreases parts.len(),
{
    if parts.len() == 0 {
        Seq::empty()
    } else {
        joined(parts.drop_last()) + parts.last()
    }
}

/// The text of a request file: nothing where there is neither an import nor
/// a request function, else the header, the imports and the functions.
pub open spec fn request_file(
    header: Seq<char>,
    imports: Seq<Seq<char>>,
    exports: Seq<Seq<char>>,
) -> Seq<char> {
    if imports.len() == 0 && exports.len() == 0 {
        Seq::empty()
    } else {
        header + "\n"@ + joined(imports) + joined(exports)
    }
}

/// Writes the path of a directory below the declarations with `/`.
pub fn get_sub_path_unix(sub_path: Option<&str>) -> (r: String)
    ensures
        r@ == sub_path_unix(text_of(sub_path)),
{
    match sub_path {
        Some(path) => {
            let slashes = replace(path, "\\", "/");
            let single = replace(slashes.as_str(), "//", "/");
            let mut out = String::from_str("/");
            out.append(single.as_str());
            out
        },
        None => String::new(),
    }
}

/// Whether the text of a declaration file names both sides of the interface.
pub fn check_file(content: &str, file_name_without_ext: &str) -> (r: bool)
    ensures
        r == declares_interface(content@, file_name_without_ext@),
{
    let req = get_interface_ts_name(WebType::Request, file_name_without_ext);
    let resp = get_interface_ts_name(WebType::Response, file_name_without_ext);
    contains(content, req.as_str()) && contains(content, resp.as_str())
}

/// The comment of a declaration file.
pub fn get_comment(content: &str) -> (r: String)
    ensures
        r@ == file_comment(content@),
{
    let chars = to_chars(content);
    let mut end: usize = 0;
    assert(chars@.skip(0) =~= chars@);
    while end < chars.len() && chars[end] != '\n'
        invariant
            end <= chars.len(),
            line_end(chars@) == end + line_end(chars@.skip(end as int)),
        decreases chars.len() - end,
    {
        assert(chars@.skip(end as int).skip(1) =~= chars@.skip(end + 1));
        end += 1;
    }
    let stop = if 0 < end && end < chars.len() && chars[end - 1] == '\r' {
        end - 1
    } else {
        end
    };
    let mut line = String::new();
    let mut i: usize = 0;
    while i < stop
        invariant
            i <= stop <= chars.len(),
            line@ == chars@.take(i as int),
        decreases stop - i,
    {
        line.push(chars[i]);
        assert(chars@.take(i + 1) =~= chars@.take(i as int).push(chars@[i as int]));
        i += 1;
    }
    if starts_with(line.as_str(), "//") {
        line
    } else {
        String::new()
    }
}

/// Adds the import line of an interface to the list.
pub fn op_import_list(
    type_import_template: &str,
    sub_path: Option<&str>,
    file_name: &str,
    import_list: &mut Vec<String>,
)
    ensures
        texts(final(import_list)@) == texts(old(import_list)@).push(
            import_line(type_import_template@, text_of(sub_path), file_name@),
        ),
{
    let req = get_interface_ts_name(WebType::Request, file_name);
    let resp = get_interface_ts_name(WebType::Response, file_name);
    let mut target = get_sub_path_unix(sub_path);
    target.append("/");
    target.append(file_name);
    let first = replace(type_import_template, "$1", req.as_str());
    let second = replace(first.as_str(), "$2", resp.as_str());
    let mut import_string = replace(second.as_str(), "$3", target.as_str());
    import_string.append("\n");
    let ghost before = texts(import_list@);
    import_list.push(import_string);
    assert(texts(import_list@) =~= before.push(import_string@));
}

/// Adds the request function of an interface, below the comment of its file,
/// to the list.
pub fn op_export_list(
    request_template: &str,
    comment: &str,
    sub_path: Option<&str>,
    file_name: &str,
    export_list: &mut Vec<String>,
)
    ensures
        texts(final(export_list)@) == texts(old(export_list)@).push(
            export_block(request_template@, comment@, text_of(sub_path), file_name@),
        ),
{
    let req = get_interface_ts_name(WebType::Request, file_name);
    let resp = get_interface_ts_name(WebType::Response, file_name);
    let mut target = get_sub_path_unix(sub_path);
    target.append("/");
    target.append(file_name);
    let first = replace(request_template, "$1", file_name);
    let second = replace(first.as_str(), "$2", req.as_str());
    let third = replace(second.as_str(), "$3", resp.as_str());
    let mut export_string = replace(third.as_str(), "$4", target.as_str());
    export_string.append("\n");
    let mut block = String::from_str(comment);
    block.append("\n");
    block.append(export_string.as_str());
    let ghost before = texts(export_list@);
    export_list.push(block);
    assert(texts(export_list@) =~= before.push(block@));
}

/// Appends each of the texts.
fn join_all(parts: &Vec<String>, out: &mut String)
    ensures
        final(out)@ == old(out)@ + joined(texts(parts@)),
{
    let ghost all = texts(parts@);
    let ghost start = out@;
    let mut i: usize = 0;
    assert(start + joined(all.take(0)) =~= start);
    while i < parts.len()
        invariant
            i <= parts.len(),
            all == texts(parts@),
            out@ == start + joined(all.take(i as int)),
        decreases parts.len() - i,
    {
        proof {
            assert(all.take(i + 1).drop_last() =~= all.take(i as int));
            assert(start + (joined(all.take(i as int)) + all[i as int]) =~= start + joined(
                all.take(i as int),
            ) + all[i as int]);
        }
        out.append(parts[i].as_str());
        i += 1;
    }
    proof {
        assert(all.take(i as int) =~= all);
    }
}

/// The text of a request file.
pub fn get_request_ts_string(
    header_template: &str,
    import_list: &Vec<String>,
    export_list: &Vec<String>,
) -> (r: String)
    ensures
        r@ == request_file(header_template@, texts(import_list@), texts(export_list@)),
{
    if import_list.len() == 0 && export_list.len() == 0 {
        return String::new();
    }
    let mut out = String::from_str(header_template);
    out.append("\n");
    join_all(import_list, &mut out);
    join_all(export_list, &mut out);
    out
}

} // verus!
