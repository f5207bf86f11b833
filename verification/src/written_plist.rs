//! What the property list of a LaunchAgent gives back of the arguments that it was
//! written with.
use vstd::prelude::*;

use crate::encoding::{
    xml_escaped, xml_escaped_has_no_markup, xml_escaping_unescapes, xml_unescaped,
};
use crate::launch_agent::{
    argument_lines, environment_entries, environment_entry, environment_section,
    installed_arguments_match_their_options, is_flag_name, options_match, plain_option, plain_value,
    plist_text, program_argument_list, LaunchEnvironment, ServiceOptionsView, SERVICE_LABEL,
};
use crate::text::{
    blank, contained_texts_are_parts, contains_text, index_where, joined, lemma_index_where,
    lemma_joined_front, occurs_at, option_view,
};

verus! {

/// The character that opens a tag.
pub open spec fn tag_opener() -> spec_fn(char) -> bool {
    |c: char| c == '<'
}

/// The texts of the string elements that a text starts with, up to the first tag
/// of another kind.
pub open spec fn string_elements(text: Seq<char>) -> Seq<Seq<char>>
    decreases text.len(),
{
    let open = index_where(text, 0, tag_opener());
    let close = index_where(text, open + 8, tag_opener());
    if 0 <= open && open + 8 <= close && close + 9 <= text.len() && occurs_at(
        text,
        "<string>"@,
        open,
    ) && occurs_at(text, "</string>"@, close) {
        seq![xml_unescaped(text.subrange(open + 8, close))] + string_elements(
            text.skip(close + 9),
        )
    } else {
        Seq::empty()
    }
}

/// The elements of the array under the key `ProgramArguments` of a property list
/// are the given texts.
pub open spec fn program_arguments_are(plist: Seq<char>, arguments: Seq<Seq<char>>) -> bool {
    exists|front: Seq<char>, back: Seq<char>|
        {
            &&& plist == #[trigger] (front + "<key>ProgramArguments</key>\n  <array>"@ + back)
            &&& string_elements(back) == arguments
        }
}

proof fn lemma_first_tag(front: Seq<char>, back: Seq<char>, from: int)
    requires
        0 <= from <= front.len(),
        forall|i: int| from <= i < front.len() ==> #[trigger] front[i] != '<',
        back.len() > 0,
        back[0] == '<',
    ensures
        index_where(front + back, from, tag_opener()) == front.len(),
{
    let text = front + back;
    lemma_index_where(text, from, tag_opener());
    let end = index_where(text, from, tag_opener());
    assert(text[front.len() as int] == '<');
    if end < front.len() {
        assert(text[end] == front[end]);
    }
    if end > front.len() {
        assert(tag_opener()(text[front.len() as int]));
    }
}

/// A string element is taken off a text that starts with one.
proof fn lemma_string_element(padding: Seq<char>, content: Seq<char>, more: Seq<char>)
    requires
        forall|i: int| 0 <= i < padding.len() ==> #[trigger] padding[i] != '<',
        forall|i: int| 0 <= i < content.len() ==> #[trigger] content[i] != '<',
    ensures
        string_elements(padding + "<string>"@ + content + "</string>"@ + more) == seq![
            xml_unescaped(content),
        ] + string_elements(more),
{
    reveal_strlit("<string>");
    reveal_strlit("</string>");
    let text = padding + "<string>"@ + content + "</string>"@ + more;
    let open = padding.len() as int;
    let close = open + 8 + content.len();
    assert(text =~= padding + ("<string>"@ + content + "</string>"@ + more));
    lemma_first_tag(padding, "<string>"@ + content + "</string>"@ + more, 0);
    let front = padding + "<string>"@ + content;
    assert(text =~= front + ("</string>"@ + more));
    assert forall|i: int| open + 8 <= i < front.len() implies #[trigger] front[i] != '<' by {
        assert(front[i] == content[i - open - 8]);
    }
    lemma_first_tag(front, "</string>"@ + more, open + 8);
    assert(text.subrange(open, open + 8) =~= "<string>"@);
    assert(text.subrange(close, close + 9) =~= "</string>"@);
    assert(text.subrange(open + 8, close) =~= content);
    assert(text.skip(close + 9) =~= more);
}

/// The end of an array ends its elements.
proof fn lemma_end_of_array(padding: Seq<char>, back: Seq<char>)
    requires
        forall|i: int| 0 <= i < padding.len() ==> #[trigger] padding[i] != '<',
    ensures
        string_elements(padding + "</array>"@ + back) == Seq::<Seq<char>>::empty(),
{
    reveal_strlit("</array>");
    reveal_strlit("<string>");
    let text = padding + "</array>"@ + back;
    let open = padding.len() as int;
    assert(text =~= padding + ("</array>"@ + back));
    lemma_first_tag(padding, "</array>"@ + back, 0);
    assert(text[open + 1] == '/');
    if occurs_at(text, "<string>"@, open) {
        assert(text.subrange(open, open + 8)[1] == '/');
    }
}

/// The lines of arguments give the arguments back.
proof fn lemma_argument_lines(padding: Seq<char>, arguments: Seq<Seq<char>>, back: Seq<char>)
    requires
        forall|i: int| 0 <= i < padding.len() ==> #[trigger] padding[i] != '<',
    ensures
        string_elements(
            padding + joined(argument_lines(arguments), "\n"@) + "\n  </array>"@ + back,
        ) == arguments,
    decreases arguments.len(),
{
    reveal_strlit("\n");
    reveal_strlit("\n  ");
    reveal_strlit("\n  </array>");
    reveal_strlit("</array>");
    assert("\n  </array>"@ =~= "\n  "@ + "</array>"@);
    let lines = argument_lines(arguments);
    let end = "\n  </array>"@ + back;
    let text = padding + joined(lines, "\n"@) + "\n  </array>"@ + back;
    if arguments.len() == 0 {
        assert(text =~= (padding + "\n  "@) + "</array>"@ + back);
        lemma_end_of_array(padding + "\n  "@, back);
        assert(arguments =~= Seq::empty());
    } else {
        reveal_strlit("    ");
        reveal_strlit("    <string>");
        reveal_strlit("<string>");
        let content = xml_escaped(arguments[0]);
        assert("    <string>"@ =~= "    "@ + "<string>"@);
        assert(lines[0] == "    <string>"@ + content + "</string>"@);
        xml_escaped_has_no_markup(arguments[0]);
        xml_escaping_unescapes(arguments[0]);
        let rest = arguments.drop_first();
        let more = if arguments.len() == 1 {
            end
        } else {
            "\n"@ + joined(argument_lines(rest), "\n"@) + "\n  </array>"@ + back
        };
        if arguments.len() == 1 {
            assert(end =~= "\n  "@ + "</array>"@ + back);
            lemma_end_of_array("\n  "@, back);
            assert(rest =~= Seq::empty());
        } else {
            lemma_joined_front(lines, "\n"@);
            assert(lines.drop_first() =~= argument_lines(rest));
            lemma_argument_lines("\n"@, rest, back);
        }
        assert(text =~= (padding + "    "@) + "<string>"@ + content + "</string>"@ + more);
        lemma_string_element(padding + "    "@, content, more);
        assert(arguments =~= seq![arguments[0]] + rest);
    }
}

/// The array of arguments of a property list holds the arguments that the list
/// was written with, whatever characters are in them.
pub proof fn plist_holds_its_arguments(
    arguments: Seq<Seq<char>>,
    environment: Seq<char>,
    stdout_log: Seq<char>,
    stderr_log: Seq<char>,
)
    ensures
        program_arguments_are(
            plist_text(arguments, environment, stdout_log, stderr_log),
            arguments,
        ),
{
    let plist = plist_text(arguments, environment, stdout_log, stderr_log);
    let head =
        "<?xml version=\"1.0\" encoding=\"UTF-8\"?>\n<!DOCTYPE plist PUBLIC \"-//Apple//DTD PLIST 1.0//EN\" \"http://www.apple.com/DTDs/PropertyList-1.0.dtd\">\n<plist version=\"1.0\">\n<dict>\n  <key>Label</key>\n  <string>"@;
    let section = joined(argument_lines(arguments), "\n"@);
    let foot = environment_section(environment) + "  <key>StandardOutPath</key>\n  <string>"@
        + xml_escaped(stdout_log) + "</string>\n  <key>StandardErrorPath</key>\n  <string>"@
        + xml_escaped(stderr_log) + "</string>\n</dict>\n</plist>\n"@;
    let front = head + SERVICE_LABEL@ + "</string>\n  "@;
    let after = "\n  <key>RunAtLoad</key>\n  <true/>\n  <key>KeepAlive</key>\n  <true/>\n"@ + foot;
    let back = "\n"@ + section + "\n  </array>"@ + after;
    lemma_array_tags();
    assert(plist =~= front + "<key>ProgramArguments</key>\n  <array>"@ + back);
    reveal_strlit("\n");
    lemma_argument_lines("\n"@, arguments, after);
}

proof fn lemma_array_tags()
    ensures
        "</string>\n  <key>ProgramArguments</key>\n  <array>\n"@ == "</string>\n  "@
            + "<key>ProgramArguments</key>\n  <array>"@ + "\n"@,
        "\n  </array>\n  <key>RunAtLoad</key>\n  <true/>\n  <key>KeepAlive</key>\n  <true/>\n"@
            == "\n  </array>"@
            + "\n  <key>RunAtLoad</key>\n  <true/>\n  <key>KeepAlive</key>\n  <true/>\n"@,
{
    reveal_strlit("</string>\n  <key>ProgramArguments</key>\n  <array>\n");
    reveal_strlit("</string>\n  ");
    reveal_strlit("<key>ProgramArguments</key>\n  <array>");
    reveal_strlit("\n");
    reveal_strlit(
        "\n  </array>\n  <key>RunAtLoad</key>\n  <true/>\n  <key>KeepAlive</key>\n  <true/>\n",
    );
    reveal_strlit("\n  </array>");
    reveal_strlit("\n  <key>RunAtLoad</key>\n  <true/>\n  <key>KeepAlive</key>\n  <true/>\n");
    assert("</string>\n  <key>ProgramArguments</key>\n  <array>\n"@ =~= "</string>\n  "@
        + "<key>ProgramArguments</key>\n  <array>"@ + "\n"@);
    assert("\n  </array>\n  <key>RunAtLoad</key>\n  <true/>\n  <key>KeepAlive</key>\n  <true/>\n"@
        =~= "\n  </array>"@
        + "\n  <key>RunAtLoad</key>\n  <true/>\n  <key>KeepAlive</key>\n  <true/>\n"@);
}

/// The property list that a LaunchAgent is installed with holds arguments that run
/// the executable as a service and match the options, also where they hold
/// characters that XML escapes. Left out are texts that the arguments cannot give
/// back: blank ones, ones with white space around them, and names of flags.
pub proof fn installed_plist_matches_its_options(
    executable: Seq<char>,
    client_root: Seq<char>,
    options: ServiceOptionsView,
    environment: LaunchEnvironment,
    stdout_log: Seq<char>,
    stderr_log: Seq<char>,
)
    requires
        !is_flag_name(executable),
        plain_value(client_root),
        options.bind.valid(),
        plain_option(options.stream_quality_profile),
        plain_option(options.advertise_host),
        plain_option(options.access_token),
        plain_option(options.pairing_code),
    ensures
        ({
            let arguments = program_argument_list(executable, client_root, options);
            let plist = plist_text(
                arguments,
                joined(environment_entries(environment), "\n"@),
                stdout_log,
                stderr_log,
            );
            &&& program_arguments_are(plist, arguments)
            &&& arguments[0] == executable
            &&& arguments[1] == "service"@
            &&& arguments[2] == "run"@
            &&& options_match(arguments, options, client_root)
        }),
{
    let arguments = program_argument_list(executable, client_root, options);
    plist_holds_its_arguments(
        arguments,
        joined(environment_entries(environment), "\n"@),
        stdout_log,
        stderr_log,
    );
    installed_arguments_match_their_options(executable, client_root, options);
    assert(arguments[0] == executable);
}

/// The keys of a dictionary and the texts under them, as far as a text starts with
/// keys that have texts.
pub open spec fn dictionary_texts(text: Seq<char>) -> Seq<(Seq<char>, Seq<char>)>
    decreases text.len(),
{
    let open = index_where(text, 0, tag_opener());
    let close = index_where(text, open + 5, tag_opener());
    let value = index_where(text, close + 6, tag_opener());
    let end = index_where(text, value + 8, tag_opener());
    if 0 <= open && open + 5 <= close && close + 6 <= value && value + 8 <= end && end + 9
        <= text.len() && occurs_at(text, "<key>"@, open) && occurs_at(text, "</key>"@, close)
        && occurs_at(text, "<string>"@, value) && occurs_at(text, "</string>"@, end) {
        seq![
            (
                xml_unescaped(text.subrange(open + 5, close)),
                xml_unescaped(text.subrange(value + 8, end)),
            ),
        ] + dictionary_texts(text.skip(end + 9))
    } else {
        Seq::empty()
    }
}

/// The dictionary under the key `EnvironmentVariables` of a property list holds the
/// given names and values.
pub open spec fn environment_is(plist: Seq<char>, variables: Seq<(Seq<char>, Seq<char>)>) -> bool {
    exists|front: Seq<char>, back: Seq<char>|
        {
            &&& plist == #[trigger] (front + "<key>EnvironmentVariables</key>\n  <dict>"@ + back)
            &&& dictionary_texts(back) == variables
        }
}

/// A variable that the user's environment gives, with a value that is not blank.
pub open spec fn gives_variable(
    environment: LaunchEnvironment,
    name: Seq<char>,
    value: Seq<char>,
) -> bool {
    &&& !blank(value)
    &&& {
        ||| name == "ANDROID_HOME"@ && option_view(environment.android_home) == Some(value)
        ||| name == "ANDROID_SDK_ROOT"@ && option_view(environment.android_sdk_root) == Some(value)
        ||| name == "JAVA_HOME"@ && option_view(environment.java_home) == Some(value)
        ||| name == "DEVELOPER_DIR"@ && option_view(environment.developer_dir) == Some(value)
    }
}

/// A key with its text is taken off a text that starts with one.
proof fn lemma_dictionary_text(
    padding: Seq<char>,
    key: Seq<char>,
    between: Seq<char>,
    content: Seq<char>,
    more: Seq<char>,
)
    requires
        forall|i: int| 0 <= i < padding.len() ==> #[trigger] padding[i] != '<',
        forall|i: int| 0 <= i < key.len() ==> #[trigger] key[i] != '<',
        forall|i: int| 0 <= i < between.len() ==> #[trigger] between[i] != '<',
        forall|i: int| 0 <= i < content.len() ==> #[trigger] content[i] != '<',
    ensures
        dictionary_texts(
            padding + "<key>"@ + key + "</key>"@ + between + "<string>"@ + content + "</string>"@
                + more,
        ) == seq![(xml_unescaped(key), xml_unescaped(content))] + dictionary_texts(more),
{
    reveal_strlit("<key>");
    reveal_strlit("</key>");
    reveal_strlit("<string>");
    reveal_strlit("</string>");
    let text = padding + "<key>"@ + key + "</key>"@ + between + "<string>"@ + content
        + "</string>"@ + more;
    let open = padding.len() as int;
    let close = open + 5 + key.len();
    let value = close + 6 + between.len();
    let end = value + 8 + content.len();
    let first = padding + "<key>"@ + key;
    let second = first + "</key>"@ + between;
    let third = second + "<string>"@ + content;
    let tail = "</string>"@ + more;
    assert(text =~= padding + ("<key>"@ + key + "</key>"@ + between + "<string>"@ + content + tail));
    lemma_first_tag(
        padding,
        "<key>"@ + key + "</key>"@ + between + "<string>"@ + content + tail,
        0,
    );
    assert(text =~= first + ("</key>"@ + between + "<string>"@ + content + tail));
    assert forall|i: int| open + 5 <= i < first.len() implies #[trigger] first[i] != '<' by {
        assert(first[i] == key[i - open - 5]);
    }
    lemma_first_tag(first, "</key>"@ + between + "<string>"@ + content + tail, open + 5);
    assert(text =~= second + ("<string>"@ + content + tail));
    assert forall|i: int| close + 6 <= i < second.len() implies #[trigger] second[i] != '<' by {
        assert(second[i] == between[i - close - 6]);
    }
    lemma_first_tag(second, "<string>"@ + content + tail, close + 6);
    assert(text =~= third + tail);
    assert forall|i: int| value + 8 <= i < third.len() implies #[trigger] third[i] != '<' by {
        assert(third[i] == content[i - value - 8]);
    }
    lemma_first_tag(third, tail, value + 8);
    assert(text.subrange(open, open + 5) =~= "<key>"@);
    assert(text.subrange(close, close + 6) =~= "</key>"@);
    assert(text.subrange(value, value + 8) =~= "<string>"@);
    assert(text.subrange(end, end + 9) =~= "</string>"@);
    assert(text.subrange(open + 5, close) =~= key);
    assert(text.subrange(value + 8, end) =~= content);
    assert(text.skip(end + 9) =~= more);
}

/// The end of a dictionary ends its keys.
proof fn lemma_end_of_dictionary(padding: Seq<char>, back: Seq<char>)
    requires
        forall|i: int| 0 <= i < padding.len() ==> #[trigger] padding[i] != '<',
    ensures
        dictionary_texts(padding + "</dict>"@ + back) == Seq::<(Seq<char>, Seq<char>)>::empty(),
{
    reveal_strlit("</dict>");
    reveal_strlit("<key>");
    let text = padding + "</dict>"@ + back;
    let open = padding.len() as int;
    assert(text =~= padding + ("</dict>"@ + back));
    lemma_first_tag(padding, "</dict>"@ + back, 0);
    assert(text[open + 1] == '/');
    if occurs_at(text, "<key>"@, open) {
        assert(text.subrange(open, open + 5)[1] == '/');
    }
}

/// The entries of variables in the property list.
spec fn entry_lines(variables: Seq<(Seq<char>, Seq<char>)>) -> Seq<Seq<char>> {
    variables.map_values(
        |variable: (Seq<char>, Seq<char>)|
            "    <key>"@ + xml_escaped(variable.0) + "</key>\n    <string>"@ + xml_escaped(
                variable.1,
            ) + "</string>"@,
    )
}

/// The entries of variables give the variables back.
proof fn lemma_entry_lines(
    padding: Seq<char>,
    variables: Seq<(Seq<char>, Seq<char>)>,
    back: Seq<char>,
)
    requires
        forall|i: int| 0 <= i < padding.len() ==> #[trigger] padding[i] != '<',
    ensures
        dictionary_texts(
            padding + joined(entry_lines(variables), "\n"@) + "\n  </dict>"@ + back,
        ) == variables,
    decreases variables.len(),
{
    reveal_strlit("\n");
    reveal_strlit("\n  ");
    reveal_strlit("\n  </dict>");
    reveal_strlit("</dict>");
    assert("\n  </dict>"@ =~= "\n  "@ + "</dict>"@);
    let lines = entry_lines(variables);
    let end = "\n  </dict>"@ + back;
    let text = padding + joined(lines, "\n"@) + "\n  </dict>"@ + back;
    if variables.len() == 0 {
        assert(text =~= (padding + "\n  "@) + "</dict>"@ + back);
        lemma_end_of_dictionary(padding + "\n  "@, back);
        assert(variables =~= Seq::empty());
    } else {
        reveal_strlit("    ");
        reveal_strlit("    <key>");
        reveal_strlit("<key>");
        reveal_strlit("</key>\n    <string>");
        reveal_strlit("</key>");
        reveal_strlit("\n    ");
        reveal_strlit("<string>");
        let key = xml_escaped(variables[0].0);
        let content = xml_escaped(variables[0].1);
        assert("    <key>"@ =~= "    "@ + "<key>"@);
        assert("</key>\n    <string>"@ =~= "</key>"@ + "\n    "@ + "<string>"@);
        assert(lines[0] == "    <key>"@ + key + "</key>\n    <string>"@ + content
            + "</string>"@);
        xml_escaped_has_no_markup(variables[0].0);
        xml_escaping_unescapes(variables[0].0);
        xml_escaped_has_no_markup(variables[0].1);
        xml_escaping_unescapes(variables[0].1);
        let rest = variables.drop_first();
        let more = if variables.len() == 1 {
            end
        } else {
            "\n"@ + joined(entry_lines(rest), "\n"@) + "\n  </dict>"@ + back
        };
        if variables.len() == 1 {
            assert(end =~= "\n  "@ + "</dict>"@ + back);
            lemma_end_of_dictionary("\n  "@, back);
            assert(rest =~= Seq::empty());
        } else {
            lemma_joined_front(lines, "\n"@);
            assert(lines.drop_first() =~= entry_lines(rest));
            lemma_entry_lines("\n"@, rest, back);
        }
        assert(text =~= (padding + "    "@) + "<key>"@ + key + "</key>"@ + "\n    "@ + "<string>"@
            + content + "</string>"@ + more);
        lemma_dictionary_text(padding + "    "@, key, "\n    "@, content, more);
        assert(variables =~= seq![variables[0]] + rest);
    }
}

/// A variable, where it has a value that is not blank.
spec fn given_variable(name: Seq<char>, value: Option<Seq<char>>) -> Seq<(Seq<char>, Seq<char>)> {
    match value {
        Some(text) => if blank(text) {
            Seq::empty()
        } else {
            seq![(name, text)]
        },
        None => Seq::empty(),
    }
}

proof fn lemma_given_entry(name: Seq<char>, value: Option<Seq<char>>)
    ensures
        entry_lines(given_variable(name, value)) == environment_entry(name, value),
{
    assert(entry_lines(given_variable(name, value)) =~= environment_entry(name, value));
}

spec fn given_variables(environment: LaunchEnvironment) -> Seq<(Seq<char>, Seq<char>)> {
    given_variable("ANDROID_HOME"@, option_view(environment.android_home)) + given_variable(
        "ANDROID_SDK_ROOT"@,
        option_view(environment.android_sdk_root),
    ) + given_variable("JAVA_HOME"@, option_view(environment.java_home)) + given_variable(
        "DEVELOPER_DIR"@,
        option_view(environment.developer_dir),
    )
}

proof fn lemma_given_entries(environment: LaunchEnvironment)
    ensures
        entry_lines(given_variables(environment)) == environment_entries(environment),
        forall|name: Seq<char>, value: Seq<char>|
            #[trigger] given_variables(environment).contains((name, value)) <==> gives_variable(
                environment,
                name,
                value,
            ),
{
    let a = given_variable("ANDROID_HOME"@, option_view(environment.android_home));
    let b = given_variable("ANDROID_SDK_ROOT"@, option_view(environment.android_sdk_root));
    let c = given_variable("JAVA_HOME"@, option_view(environment.java_home));
    let d = given_variable("DEVELOPER_DIR"@, option_view(environment.developer_dir));
    lemma_given_entry("ANDROID_HOME"@, option_view(environment.android_home));
    lemma_given_entry("ANDROID_SDK_ROOT"@, option_view(environment.android_sdk_root));
    lemma_given_entry("JAVA_HOME"@, option_view(environment.java_home));
    lemma_given_entry("DEVELOPER_DIR"@, option_view(environment.developer_dir));
    let all = given_variables(environment);
    assert(entry_lines(all) =~= entry_lines(a) + entry_lines(b) + entry_lines(c) + entry_lines(d));
    assert forall|name: Seq<char>, value: Seq<char>|
        #[trigger] all.contains((name, value)) <==> gives_variable(environment, name, value) by {
        if gives_variable(environment, name, value) {
            if name == "ANDROID_HOME"@ && option_view(environment.android_home) == Some(value) {
                assert(all[0] == (name, value));
            } else if name == "ANDROID_SDK_ROOT"@ && option_view(environment.android_sdk_root)
                == Some(value) {
                assert(all[a.len() as int] == (name, value));
            } else if name == "JAVA_HOME"@ && option_view(environment.java_home) == Some(value) {
                assert(all[(a + b).len() as int] == (name, value));
            } else {
                assert(all[(a + b + c).len() as int] == (name, value));
            }
        }
    }
}

/// The property list that a LaunchAgent is installed with hands on the user's
/// environment: under `EnvironmentVariables` stand exactly the variables that have a
/// value which is not blank, each with its value, whatever characters are in it.
pub proof fn plist_holds_its_environment(
    arguments: Seq<Seq<char>>,
    environment: LaunchEnvironment,
    stdout_log: Seq<char>,
    stderr_log: Seq<char>,
    name: Seq<char>,
    value: Seq<char>,
)
    requires
        gives_variable(environment, name, value),
    ensures
        exists|variables: Seq<(Seq<char>, Seq<char>)>|
            {
                &&& #[trigger] environment_is(
                    plist_text(
                        arguments,
                        joined(environment_entries(environment), "\n"@),
                        stdout_log,
                        stderr_log,
                    ),
                    variables,
                )
                &&& variables.contains((name, value))
                &&& forall|other: Seq<char>, text: Seq<char>|
                    #[trigger] variables.contains((other, text)) ==> gives_variable(
                        environment,
                        other,
                        text,
                    )
            },
{
    lemma_given_entries(environment);
    let variables = given_variables(environment);
    let entries = joined(environment_entries(environment), "\n"@);
    let plist = plist_text(arguments, entries, stdout_log, stderr_log);
    assert(variables.contains((name, value)));
    assert(entry_lines(variables).len() > 0);
    lemma_joined_is_not_empty(variables);
    let head =
        "<?xml version=\"1.0\" encoding=\"UTF-8\"?>\n<!DOCTYPE plist PUBLIC \"-//Apple//DTD PLIST 1.0//EN\" \"http://www.apple.com/DTDs/PropertyList-1.0.dtd\">\n<plist version=\"1.0\">\n<dict>\n  <key>Label</key>\n  <string>"@;
    let above = head + SERVICE_LABEL@ + "</string>\n  <key>ProgramArguments</key>\n  <array>\n"@
        + joined(argument_lines(arguments), "\n"@)
        + "\n  </array>\n  <key>RunAtLoad</key>\n  <true/>\n  <key>KeepAlive</key>\n  <true/>\n"@;
    let below = "\n"@ + "  <key>StandardOutPath</key>\n  <string>"@ + xml_escaped(stdout_log)
        + "</string>\n  <key>StandardErrorPath</key>\n  <string>"@ + xml_escaped(stderr_log)
        + "</string>\n</dict>\n</plist>\n"@;
    reveal_strlit("  <key>EnvironmentVariables</key>\n  <dict>\n");
    reveal_strlit("  ");
    reveal_strlit("<key>EnvironmentVariables</key>\n  <dict>");
    reveal_strlit("\n");
    reveal_strlit("\n  </dict>\n");
    reveal_strlit("\n  </dict>");
    assert("  <key>EnvironmentVariables</key>\n  <dict>\n"@ =~= "  "@
        + "<key>EnvironmentVariables</key>\n  <dict>"@ + "\n"@);
    assert("\n  </dict>\n"@ =~= "\n  </dict>"@ + "\n"@);
    let front = above + "  "@;
    let back = "\n"@ + entries + "\n  </dict>"@ + below;
    assert(plist =~= front + "<key>EnvironmentVariables</key>\n  <dict>"@ + back);
    lemma_entry_lines("\n"@, variables, below);
    assert(environment_is(plist, variables));
}

proof fn lemma_joined_is_not_empty(variables: Seq<(Seq<char>, Seq<char>)>)
    requires
        variables.len() > 0,
    ensures
        joined(entry_lines(variables), "\n"@).len() > 0,
{
    reveal_strlit("</string>");
    let lines = entry_lines(variables);
    assert(lines.last() == "    <key>"@ + xml_escaped(variables.last().0)
        + "</key>\n    <string>"@ + xml_escaped(variables.last().1) + "</string>"@);
}

/// A key of a property list has the given text under it.
pub open spec fn text_under(plist: Seq<char>, key: Seq<char>, text: Seq<char>) -> bool {
    exists|front: Seq<char>, back: Seq<char>|
        {
            &&& plist == #[trigger] (front + ("<key>"@ + key + "</key>"@) + back)
            &&& string_elements(back).len() > 0 && string_elements(back)[0] == text
        }
}

proof fn lemma_text_under(
    front: Seq<char>,
    key: Seq<char>,
    padding: Seq<char>,
    text: Seq<char>,
    more: Seq<char>,
)
    requires
        forall|i: int| 0 <= i < padding.len() ==> #[trigger] padding[i] != '<',
    ensures
        text_under(
            front + ("<key>"@ + key + "</key>"@) + (padding + "<string>"@ + xml_escaped(text)
                + "</string>"@ + more),
            key,
            text,
        ),
{
    xml_escaped_has_no_markup(text);
    xml_escaping_unescapes(text);
    lemma_string_element(padding, xml_escaped(text), more);
}

/// The property list of a LaunchAgent names the service by its label, has its output
/// and its errors written to their files, and has it started at once and started
/// again whenever it ends.
pub proof fn plist_says_how_the_service_runs(
    arguments: Seq<Seq<char>>,
    environment: Seq<char>,
    stdout_log: Seq<char>,
    stderr_log: Seq<char>,
)
    ensures
        ({
            let plist = plist_text(arguments, environment, stdout_log, stderr_log);
            &&& text_under(plist, "StandardOutPath"@, stdout_log)
            &&& text_under(plist, "StandardErrorPath"@, stderr_log)
            &&& contains_text(plist, "<key>RunAtLoad</key>\n  <true/>"@)
            &&& contains_text(plist, "<key>KeepAlive</key>\n  <true/>"@)
            &&& contains_text(
                plist,
                "<key>Label</key>\n  <string>org.nativescript.simdeck</string>"@,
            )
        }),
{
    let plist = plist_text(arguments, environment, stdout_log, stderr_log);
    let head =
        "<?xml version=\"1.0\" encoding=\"UTF-8\"?>\n<!DOCTYPE plist PUBLIC \"-//Apple//DTD PLIST 1.0//EN\" \"http://www.apple.com/DTDs/PropertyList-1.0.dtd\">\n<plist version=\"1.0\">\n<dict>\n  <key>Label</key>\n  <string>"@;
    let array = "</string>\n  <key>ProgramArguments</key>\n  <array>\n"@;
    let lines = joined(argument_lines(arguments), "\n"@);
    let keep =
        "\n  </array>\n  <key>RunAtLoad</key>\n  <true/>\n  <key>KeepAlive</key>\n  <true/>\n"@;
    let section = environment_section(environment);
    let out = "  <key>StandardOutPath</key>\n  <string>"@;
    let err = "</string>\n  <key>StandardErrorPath</key>\n  <string>"@;
    let foot = "</string>\n</dict>\n</plist>\n"@;
    let written = xml_escaped(stdout_log);
    let failed = xml_escaped(stderr_log);
    reveal_strlit("<key>");
    reveal_strlit("</key>");
    reveal_strlit("<string>");
    reveal_strlit("</string>");
    reveal_strlit("\n  ");
    reveal_strlit("  ");
    reveal_strlit("StandardOutPath");
    reveal_strlit("StandardErrorPath");
    reveal_strlit("  <key>StandardOutPath</key>\n  <string>");
    reveal_strlit("</string>\n  <key>StandardErrorPath</key>\n  <string>");
    reveal_strlit("</string>\n</dict>\n</plist>\n");
    reveal_strlit("\n</dict>\n</plist>\n");
    reveal_strlit("\n  <key>StandardErrorPath</key>\n  <string>");
    assert(out =~= "  "@ + ("<key>"@ + "StandardOutPath"@ + "</key>"@) + ("\n  "@ + "<string>"@));
    assert(err =~= "</string>"@ + "\n  <key>StandardErrorPath</key>\n  <string>"@);
    assert(err =~= "</string>"@ + "\n  "@ + ("<key>"@ + "StandardErrorPath"@ + "</key>"@) + (
    "\n  "@ + "<string>"@));
    assert(foot =~= "</string>"@ + "\n</dict>\n</plist>\n"@);
    let above = head + SERVICE_LABEL@ + array + lines + keep + section;
    lemma_text_under(
        above + "  "@,
        "StandardOutPath"@,
        "\n  "@,
        stdout_log,
        "\n  <key>StandardErrorPath</key>\n  <string>"@ + failed + foot,
    );
    assert(plist =~= above + "  "@ + ("<key>"@ + "StandardOutPath"@ + "</key>"@) + ("\n  "@
        + "<string>"@ + written + "</string>"@ + (
    "\n  <key>StandardErrorPath</key>\n  <string>"@ + failed + foot)));
    let upto = above + out + written + "</string>"@ + "\n  "@;
    lemma_text_under(
        upto,
        "StandardErrorPath"@,
        "\n  "@,
        stderr_log,
        "\n</dict>\n</plist>\n"@,
    );
    assert(plist =~= upto + ("<key>"@ + "StandardErrorPath"@ + "</key>"@) + ("\n  "@ + "<string>"@
        + failed + "</string>"@ + "\n</dict>\n</plist>\n"@));
    lemma_kept_alive(head + SERVICE_LABEL@ + array + lines, section + out + written + err + failed
        + foot);
    assert(plist =~= head + SERVICE_LABEL@ + array + lines + keep + (section + out + written + err
        + failed + foot));
    let rest = array + lines + keep + section + out + written + err + failed + foot;
    reveal_strlit("</string>\n  <key>ProgramArguments</key>\n  <array>\n");
    assert(rest.take(9) =~= "</string>"@);
    lemma_labelled(rest);
    assert(plist =~= head + SERVICE_LABEL@ + (array + lines + keep + section + out + written + err
        + failed + foot));
}

proof fn lemma_kept_alive(front: Seq<char>, back: Seq<char>)
    ensures
        ({
            let keep =
                "\n  </array>\n  <key>RunAtLoad</key>\n  <true/>\n  <key>KeepAlive</key>\n  <true/>\n"@;
            &&& contains_text(front + keep + back, "<key>RunAtLoad</key>\n  <true/>"@)
            &&& contains_text(front + keep + back, "<key>KeepAlive</key>\n  <true/>"@)
        }),
{
    let keep =
        "\n  </array>\n  <key>RunAtLoad</key>\n  <true/>\n  <key>KeepAlive</key>\n  <true/>\n"@;
    reveal_strlit(
        "\n  </array>\n  <key>RunAtLoad</key>\n  <true/>\n  <key>KeepAlive</key>\n  <true/>\n",
    );
    reveal_strlit("<key>RunAtLoad</key>\n  <true/>");
    reveal_strlit("<key>KeepAlive</key>\n  <true/>");
    let run = "<key>RunAtLoad</key>\n  <true/>"@;
    let alive = "<key>KeepAlive</key>\n  <true/>"@;
    let first = keep.take(14);
    let second = keep.take(47);
    let more: int = 14 + run.len() as int;
    let rest: int = 47 + alive.len() as int;
    assert(keep =~= first + run + keep.skip(more));
    assert(keep =~= second + alive + keep.skip(rest));
    contained_texts_are_parts(front + first, run, keep.skip(more) + back);
    assert(front + keep + back =~= front + first + run + (keep.skip(more) + back));
    contained_texts_are_parts(front + second, alive, keep.skip(rest) + back);
    assert(front + keep + back =~= front + second + alive + (keep.skip(rest) + back));
}

proof fn lemma_labelled(back: Seq<char>)
    requires
        back.len() >= 9,
        back.take(9) == "</string>"@,
    ensures
        contains_text(
            "<?xml version=\"1.0\" encoding=\"UTF-8\"?>\n<!DOCTYPE plist PUBLIC \"-//Apple//DTD PLIST 1.0//EN\" \"http://www.apple.com/DTDs/PropertyList-1.0.dtd\">\n<plist version=\"1.0\">\n<dict>\n  <key>Label</key>\n  <string>"@
                + SERVICE_LABEL@ + back,
            "<key>Label</key>\n  <string>org.nativescript.simdeck</string>"@,
        ),
{
    let head =
        "<?xml version=\"1.0\" encoding=\"UTF-8\"?>\n<!DOCTYPE plist PUBLIC \"-//Apple//DTD PLIST 1.0//EN\" \"http://www.apple.com/DTDs/PropertyList-1.0.dtd\">\n<plist version=\"1.0\">\n<dict>\n  <key>Label</key>\n  <string>"@;
    let label = "<key>Label</key>\n  <string>org.nativescript.simdeck</string>"@;
    reveal_strlit(
        "<?xml version=\"1.0\" encoding=\"UTF-8\"?>\n<!DOCTYPE plist PUBLIC \"-//Apple//DTD PLIST 1.0//EN\" \"http://www.apple.com/DTDs/PropertyList-1.0.dtd\">\n<plist version=\"1.0\">\n<dict>\n  <key>Label</key>\n  <string>",
    );
    reveal_strlit("<key>Label</key>\n  <string>org.nativescript.simdeck</string>");
    reveal_strlit("org.nativescript.simdeck");
    reveal_strlit("</string>");
    let at: int = head.len() - 27;
    let text = head + SERVICE_LABEL@ + back;
    assert(text.subrange(at, at + label.len()) =~= label) by {
        assert forall|i: int| 0 <= i < label.len() implies text[at + i] == label[i] by {
            if i >= 51 {
                assert(back[i - 51] == back.take(9)[i - 51]);
            }
        }
    }
    assert(occurs_at(text, label, at));
}

/// Where no variable has a value, the property list has no part for the environment:
/// the paths of the logs follow at once.
pub proof fn no_variables_leave_no_section(
    arguments: Seq<Seq<char>>,
    environment: LaunchEnvironment,
    stdout_log: Seq<char>,
    stderr_log: Seq<char>,
)
    requires
        forall|name: Seq<char>, value: Seq<char>|
            !#[trigger] gives_variable(environment, name, value),
    ensures
        contains_text(
            plist_text(
                arguments,
                joined(environment_entries(environment), "\n"@),
                stdout_log,
                stderr_log,
            ),
            "<key>KeepAlive</key>\n  <true/>\n  <key>StandardOutPath</key>"@,
        ),
{
    lemma_given_entries(environment);
    let variables = given_variables(environment);
    if variables.len() > 0 {
        let (name, value) = variables[0];
        assert(variables.contains((name, value)));
        assert(gives_variable(environment, name, value));
    }
    assert(entry_lines(variables).len() == 0);
    let entries = joined(environment_entries(environment), "\n"@);
    assert(entries.len() == 0);
    let plist = plist_text(arguments, entries, stdout_log, stderr_log);
    let head =
        "<?xml version=\"1.0\" encoding=\"UTF-8\"?>\n<!DOCTYPE plist PUBLIC \"-//Apple//DTD PLIST 1.0//EN\" \"http://www.apple.com/DTDs/PropertyList-1.0.dtd\">\n<plist version=\"1.0\">\n<dict>\n  <key>Label</key>\n  <string>"@;
    let keep =
        "\n  </array>\n  <key>RunAtLoad</key>\n  <true/>\n  <key>KeepAlive</key>\n  <true/>\n"@;
    let out = "  <key>StandardOutPath</key>\n  <string>"@;
    let wanted = "<key>KeepAlive</key>\n  <true/>\n  <key>StandardOutPath</key>"@;
    reveal_strlit(
        "\n  </array>\n  <key>RunAtLoad</key>\n  <true/>\n  <key>KeepAlive</key>\n  <true/>\n",
    );
    reveal_strlit("  <key>StandardOutPath</key>\n  <string>");
    reveal_strlit("<key>KeepAlive</key>\n  <true/>\n  <key>StandardOutPath</key>");
    let above = head + SERVICE_LABEL@ + "</string>\n  <key>ProgramArguments</key>\n  <array>\n"@
        + joined(argument_lines(arguments), "\n"@);
    let below = xml_escaped(stdout_log)
        + "</string>\n  <key>StandardErrorPath</key>\n  <string>"@ + xml_escaped(stderr_log)
        + "</string>\n</dict>\n</plist>\n"@;
    let middle = keep + out;
    assert(plist =~= above + middle + below);
    let front = middle.take(47);
    let rest: int = 47 + wanted.len() as int;
    assert(middle =~= front + wanted + middle.skip(rest));
    contained_texts_are_parts(above + front, wanted, middle.skip(rest) + below);
    assert(plist =~= above + front + wanted + (middle.skip(rest) + below));
}

} // verus!
