//! What the panes show, as plain values: colours, styles and styled lines.
//! Painting them on a terminal is left to the program around the library.

use crate::app::{App, AppView, Focus};
use crate::model::{
    opt_body, pair_views, parameter_views, Endpoint, EndpointView, HttpMethod, Parameter,
    ParameterLocation, ParameterView, RequestBody, RequestBodyView, Response, ResponseView,
};
use crate::text::{
    decimal, decimal_text, join_texts, joined, opt_text, pad_to, padded, texts,
};
use vstd::prelude::*;

verus! {

/// The colours the panes use.
#[derive(Debug, Clone, Copy, PartialEq, Eq, Structural)]
pub enum Color {
    Green,
    Blue,
    Yellow,
    Red,
    Cyan,
    Magenta,
    Gray,
    DarkGray,
    White,
}

/// The colour a verb is shown in.
pub open spec fn method_color_of(method: HttpMethod) -> Color {
    match method {
        HttpMethod::Get => Color::Green,
        HttpMethod::Post => Color::Blue,
        HttpMethod::Put => Color::Yellow,
        HttpMethod::Delete => Color::Red,
        HttpMethod::Patch => Color::Cyan,
        HttpMethod::Head => Color::Magenta,
        HttpMethod::Options => Color::Gray,
        HttpMethod::Trace => Color::Gray,
    }
}

/// The colour a verb is shown in.
pub fn method_color(method: &HttpMethod) -> (c: Color)
    ensures
        c == method_color_of(*method),
{
    match method {
        HttpMethod::Get => Color::Green,
        HttpMethod::Post => Color::Blue,
        HttpMethod::Put => Color::Yellow,
        HttpMethod::Delete => Color::Red,
        HttpMethod::Patch => Color::Cyan,
        HttpMethod::Head => Color::Magenta,
        HttpMethod::Options => Color::Gray,
        HttpMethod::Trace => Color::Gray,
    }
}

/// The width of the column of verbs in the endpoint list: no verb's name
/// is longer.
pub fn method_width() -> (w: usize)
    ensures
        w == 7,
        forall|method: HttpMethod| method.label().len() <= w,
{
    proof {
        reveal_strlit("GET");
        reveal_strlit("POST");
        reveal_strlit("PUT");
        reveal_strlit("DELETE");
        reveal_strlit("PATCH");
        reveal_strlit("HEAD");
        reveal_strlit("OPTIONS");
        reveal_strlit("TRACE");
    }
    7
}

/// The colour of a status label, by the class of the status: the label's
/// first character.
pub open spec fn status_color_of(status: Seq<char>) -> Color {
    if status.len() == 0 {
        Color::Gray
    } else if status[0] == '2' {
        Color::Green
    } else if status[0] == '3' {
        Color::Yellow
    } else if status[0] == '4' {
        Color::Red
    } else if status[0] == '5' {
        Color::Magenta
    } else {
        Color::Gray
    }
}

/// The colour a status label is shown in.
pub fn status_code_color(status: &str) -> (c: Color)
    ensures
        c == status_color_of(status@),
{
    if status.unicode_len() == 0 {
        return Color::Gray;
    }
    let first = status.get_char(0);
    if first == '2' {
        Color::Green
    } else if first == '3' {
        Color::Yellow
    } else if first == '4' {
        Color::Red
    } else if first == '5' {
        Color::Magenta
    } else {
        Color::Gray
    }
}

/// How a piece of text is shown.
#[derive(Debug, Clone, Copy, PartialEq, Eq, Structural)]
pub struct Style {
    pub fg: Option<Color>,
    pub bg: Option<Color>,
    pub bold: bool,
}

impl Style {
    /// The style that changes nothing.
    pub open spec fn plain() -> Style {
        Style { fg: None, bg: None, bold: false }
    }

    /// The style with a foreground colour.
    pub open spec fn colored(color: Color) -> Style {
        Style { fg: Some(color), bg: None, bold: false }
    }

    /// The style of a heading: bold, with a foreground colour.
    pub open spec fn heading(color: Color) -> Style {
        Style { fg: Some(color), bg: None, bold: true }
    }

    /// The style that only makes bold.
    pub open spec fn strong() -> Style {
        Style { fg: None, bg: None, bold: true }
    }

    /// The style that changes nothing.
    pub fn default() -> (style: Style)
        ensures
            style == Style::plain(),
    {
        Style { fg: None, bg: None, bold: false }
    }

    /// This style with the foreground colour `color`.
    pub fn fg(self, color: Color) -> (style: Style)
        ensures
            style == (Style { fg: Some(color), ..self }),
    {
        Style { fg: Some(color), bg: self.bg, bold: self.bold }
    }

    /// This style with the background colour `color`.
    pub fn bg(self, color: Color) -> (style: Style)
        ensures
            style == (Style { bg: Some(color), ..self }),
    {
        Style { fg: self.fg, bg: Some(color), bold: self.bold }
    }

    /// This style made bold.
    pub fn bold(self) -> (style: Style)
        ensures
            style == (Style { bold: true, ..self }),
    {
        Style { fg: self.fg, bg: self.bg, bold: true }
    }
}

/// The style of a pane's border: that of the focused pane stands out.
pub fn border_style(is_focused: bool) -> (style: Style)
    ensures
        style == Style::colored(
            if is_focused {
                Color::Cyan
            } else {
                Color::DarkGray
            },
        ),
{
    if is_focused {
        Style::default().fg(Color::Cyan)
    } else {
        Style::default().fg(Color::DarkGray)
    }
}

/// A run of text in one style.
#[derive(Debug, Clone)]
pub struct Span {
    pub text: String,
    pub style: Style,
}

/// What a [`Span`] holds.
pub struct SpanView {
    pub text: Seq<char>,
    pub style: Style,
}

impl View for Span {
    type V = SpanView;

    open spec fn view(&self) -> SpanView {
        SpanView { text: self.text@, style: self.style }
    }
}

/// One line of a pane: its spans from left to right.
#[derive(Debug, Clone)]
pub struct Line {
    pub spans: Vec<Span>,
}

impl View for Line {
    type V = Seq<SpanView>;

    open spec fn view(&self) -> Seq<SpanView> {
        self.spans@.map_values(|s: Span| s@)
    }
}

/// What a list of lines holds.
pub open spec fn line_views(lines: Seq<Line>) -> Seq<Seq<SpanView>> {
    lines.map_values(|l: Line| l@)
}

/// A span of `text` in `style`.
pub open spec fn span_of(text: Seq<char>, style: Style) -> SpanView {
    SpanView { text, style }
}

/// A line that is one span.
pub open spec fn line_of(text: Seq<char>, style: Style) -> Seq<SpanView> {
    seq![span_of(text, style)]
}

/// An empty line.
pub open spec fn blank_line() -> Seq<SpanView> {
    line_of(Seq::empty(), Style::plain())
}

impl Span {
    /// A span of `text` in `style`.
    pub fn styled(text: String, style: Style) -> (span: Span)
        ensures
            span@ == span_of(text@, style),
    {
        Span { text, style }
    }

    /// A span of `text` in the plain style.
    pub fn raw(text: &str) -> (span: Span)
        ensures
            span@ == span_of(text@, Style::plain()),
    {
        Span { text: text.to_owned(), style: Style::default() }
    }
}

impl Line {
    /// A line that is one span of `text` in `style`.
    pub fn styled(text: String, style: Style) -> (line: Line)
        ensures
            line@ == line_of(text@, style),
    {
        let mut spans: Vec<Span> = Vec::new();
        spans.push(Span::styled(text, style));
        let line = Line { spans };
        assert(line@ =~= line_of(text@, style));
        line
    }

    /// A line that is one span of `text` in the plain style.
    pub fn raw(text: &str) -> (line: Line)
        ensures
            line@ == line_of(text@, Style::plain()),
    {
        Line::styled(text.to_owned(), Style::default())
    }

    /// An empty line.
    pub fn blank() -> (line: Line)
        ensures
            line@ == blank_line(),
    {
        proof {
            reveal_strlit("");
        }
        let line = Line::raw("");
        assert(""@ =~= Seq::<char>::empty());
        line
    }

    /// The text of the line without its styles.
    pub open spec fn text_of(line: Seq<SpanView>) -> Seq<char>
        decreases line.len(),
    {
        if line.len() == 0 {
            Seq::empty()
        } else {
            Line::text_of(line.drop_last()) + line.last().text
        }
    }

    /// The text of the line without its styles.
    pub fn to_string(&self) -> (s: String)
        ensures
            s@ == Line::text_of(self@),
    {
        let mut s = String::new();
        let mut i: usize = 0;
        assert(self@.take(0) =~= Seq::<SpanView>::empty());
        while i < self.spans.len()
            invariant
                i <= self.spans.len(),
                s@ == Line::text_of(self@.take(i as int)),
            decreases self.spans.len() - i,
        {
            assert(self@.take(i + 1).drop_last() =~= self@.take(i as int));
            assert(self@.take(i + 1).last() == self.spans@[i as int]@);
            s.append(self.spans[i].text.as_str());
            i = i + 1;
        }
        assert(self@.take(self.spans.len() as int) =~= self@);
        s
    }
}

/// The texts of lines, one below the other.
pub open spec fn plain_text_of(lines: Seq<Seq<SpanView>>) -> Seq<char> {
    joined(lines.map_values(|l: Seq<SpanView>| Line::text_of(l)), "\n"@)
}

/// The texts of lines without their styles, separated by line feeds.
pub fn plain_text(lines: &Vec<Line>) -> (s: String)
    ensures
        s@ == plain_text_of(line_views(lines@)),
{
    let mut parts: Vec<String> = Vec::new();
    let mut i: usize = 0;
    while i < lines.len()
        invariant
            i <= lines.len(),
            parts@.len() == i,
            forall|j: int| 0 <= j < i ==> (#[trigger] parts@[j])@ == Line::text_of(lines@[j]@),
        decreases lines.len() - i,
    {
        parts.push(lines[i].to_string());
        i = i + 1;
    }
    assert(texts(parts@) =~= line_views(lines@).map_values(|l: Seq<SpanView>| Line::text_of(l)));
    join_texts(&parts, "\n")
}

/// Appends lines to lines.
pub fn append_lines(lines: &mut Vec<Line>, more: Vec<Line>)
    ensures
        line_views(final(lines)@) == line_views(old(lines)@) + line_views(more@),
{
    let ghost before = line_views(lines@);
    let mut more = more;
    let ghost added = line_views(more@);
    lines.append(&mut more);
    assert(line_views(lines@) =~= before + added);
}

/// The first line of the detail pane: the verb in its colour and the path,
/// both bold.
pub open spec fn title_line(endpoint: EndpointView) -> Seq<SpanView> {
    seq![
        span_of(endpoint.method.label(), Style::heading(method_color_of(endpoint.method))),
        span_of(" "@, Style::plain()),
        span_of(endpoint.path, Style::strong()),
    ]
}

/// An optional text as a paragraph: the text in `color` and an empty line
/// after it, or nothing.
pub open spec fn paragraph(text: Option<Seq<char>>, color: Color) -> Seq<Seq<SpanView>> {
    match text {
        Some(t) => seq![line_of(t, Style::colored(color)), blank_line()],
        None => Seq::empty(),
    }
}

/// The lines of one parameter: its name, marked with `*` when it is
/// required, and its type or `any`; then its description, if it has one.
pub open spec fn parameter_lines(p: ParameterView) -> Seq<Seq<SpanView>> {
    let head = seq![
        span_of("    "@, Style::plain()),
        span_of(
            p.name + if p.required {
                "*"@
            } else {
                Seq::empty()
            },
            Style::colored(Color::Yellow),
        ),
        span_of(
            " ("@ + match p.schema_type {
                Some(t) => t,
                None => "any"@,
            } + ")"@,
            Style::colored(Color::DarkGray),
        ),
    ];
    match p.description {
        Some(d) => seq![head, line_of("      "@ + d, Style::colored(Color::Gray))],
        None => seq![head],
    }
}

/// The lines of the parameters of one location, in their order.
pub open spec fn located_lines(
    parameters: Seq<ParameterView>,
    location: ParameterLocation,
) -> Seq<Seq<SpanView>>
    decreases parameters.len(),
{
    if parameters.len() == 0 {
        Seq::empty()
    } else {
        located_lines(parameters.drop_last(), location) + if parameters.last().location
            == location {
            parameter_lines(parameters.last())
        } else {
            Seq::empty()
        }
    }
}

/// The parameters of one location under the location's name, or nothing
/// when there is none.
pub open spec fn location_group(
    parameters: Seq<ParameterView>,
    location: ParameterLocation,
) -> Seq<Seq<SpanView>> {
    let lines = located_lines(parameters, location);
    if lines.len() > 0 {
        seq![line_of("  "@ + location.label(), Style::colored(Color::DarkGray))] + lines
    } else {
        Seq::empty()
    }
}

/// The parameter section: a heading, the parameters grouped by location in
/// the order path, query, header, cookie, and an empty line; nothing
/// without parameters.
pub open spec fn parameters_section(parameters: Seq<ParameterView>) -> Seq<Seq<SpanView>> {
    if parameters.len() > 0 {
        seq![line_of("Parameters"@, Style::heading(Color::Cyan))] + location_group(
            parameters,
            ParameterLocation::Path,
        ) + location_group(parameters, ParameterLocation::Query) + location_group(
            parameters,
            ParameterLocation::Header,
        ) + location_group(parameters, ParameterLocation::Cookie) + seq![blank_line()]
    } else {
        Seq::empty()
    }
}

/// The line of content types, indented by `indent`, or nothing when there
/// is none.
pub open spec fn content_type_lines(content_types: Seq<Seq<char>>, indent: Seq<char>) -> Seq<
    Seq<SpanView>,
> {
    if content_types.len() > 0 {
        seq![
            line_of(
                indent + "Content-Type: "@ + joined(content_types, ", "@),
                Style::colored(Color::DarkGray),
            ),
        ]
    } else {
        Seq::empty()
    }
}

/// An optional text after a prefix as one line in `color`, or nothing.
pub open spec fn prefixed_line(prefix: Seq<char>, text: Option<Seq<char>>, color: Color) -> Seq<
    Seq<SpanView>,
> {
    match text {
        Some(t) => seq![line_of(prefix + t, Style::colored(color))],
        None => Seq::empty(),
    }
}

/// The request-body section: a heading that says whether the body is
/// required, the content types, the description, the schema, and an empty
/// line; nothing without a body.
pub open spec fn body_section(body: Option<RequestBodyView>) -> Seq<Seq<SpanView>> {
    match body {
        Some(b) => seq![
            line_of(
                "Request Body"@ + if b.required {
                    " (required)"@
                } else {
                    Seq::empty()
                },
                Style::heading(Color::Cyan),
            ),
        ] + content_type_lines(b.content_types, "  "@) + prefixed_line(
            "  "@,
            b.description,
            Color::Gray,
        ) + prefixed_line("  Schema: "@, b.schema, Color::Gray) + seq![blank_line()],
        None => Seq::empty(),
    }
}

/// The lines of one response: its status in the colour of its class and
/// its description, then its content types and its schema.
pub open spec fn response_lines(status: Seq<char>, response: ResponseView) -> Seq<Seq<SpanView>> {
    seq![
        seq![
            span_of("  "@, Style::plain()),
            span_of(status, Style::colored(status_color_of(status))),
            span_of(" - "@, Style::plain()),
            span_of(response.description, Style::colored(Color::White)),
        ],
    ] + content_type_lines(response.content_types, "    "@) + prefixed_line(
        "    Schema: "@,
        response.schema,
        Color::DarkGray,
    )
}

/// The lines of a list of responses, in its order.
pub open spec fn listed_responses(listing: Seq<(Seq<char>, ResponseView)>) -> Seq<Seq<SpanView>>
    decreases listing.len(),
{
    if listing.len() == 0 {
        Seq::empty()
    } else {
        listed_responses(listing.drop_last()) + response_lines(
            listing.last().0,
            listing.last().1,
        )
    }
}

/// The response section: a heading and the responses; nothing without
/// responses.
pub open spec fn responses_section(listing: Seq<(Seq<char>, ResponseView)>) -> Seq<
    Seq<SpanView>,
> {
    if listing.len() > 0 {
        seq![line_of("Responses"@, Style::heading(Color::Cyan))] + listed_responses(listing)
    } else {
        Seq::empty()
    }
}

/// The content of the detail pane for an endpoint whose responses are
/// listed in `listing`.
pub open spec fn detail_content(
    endpoint: EndpointView,
    listing: Seq<(Seq<char>, ResponseView)>,
) -> Seq<Seq<SpanView>> {
    seq![title_line(endpoint), blank_line()] + paragraph(endpoint.summary, Color::White)
        + paragraph(endpoint.description, Color::Gray) + parameters_section(endpoint.parameters)
        + body_section(endpoint.request_body) + responses_section(listing)
}

/// Builds an optional text as a paragraph.
fn build_paragraph(text: &Option<String>, color: Color) -> (lines: Vec<Line>)
    ensures
        line_views(lines@) == paragraph(opt_text(*text), color),
{
    let mut lines: Vec<Line> = Vec::new();
    match text {
        Some(t) => {
            lines.push(Line::styled(t.clone(), Style::default().fg(color)));
            lines.push(Line::blank());
            assert(line_views(lines@) =~= paragraph(Some(t@), color));
        },
        None => {
            assert(line_views(lines@) =~= Seq::empty());
        },
    }
    lines
}

/// Builds the lines of one parameter.
fn build_parameter_lines(p: &Parameter) -> (lines: Vec<Line>)
    ensures
        line_views(lines@) == parameter_lines(p@),
{
    let mut name = p.name.clone();
    if p.required {
        name.append("*");
    }
    assert(name@ =~= p.name@ + if p.required {
        "*"@
    } else {
        Seq::empty()
    });
    let mut kind = " (".to_owned();
    match &p.schema_type {
        Some(t) => kind.append(t.as_str()),
        None => kind.append("any"),
    }
    kind.append(")");
    let mut spans: Vec<Span> = Vec::new();
    spans.push(Span::raw("    "));
    spans.push(Span::styled(name, Style::default().fg(Color::Yellow)));
    spans.push(Span::styled(kind, Style::default().fg(Color::DarkGray)));
    let head = Line { spans };
    let mut lines: Vec<Line> = Vec::new();
    lines.push(head);
    match &p.description {
        Some(d) => {
            let mut text = "      ".to_owned();
            text.append(d.as_str());
            lines.push(Line::styled(text, Style::default().fg(Color::Gray)));
        },
        None => {},
    }
    proof {
        assert(lines@[0]@ =~= parameter_lines(p@)[0]);
        assert(line_views(lines@) =~= parameter_lines(p@));
    }
    lines
}

/// Builds the group of the parameters of one location.
fn build_location_group(parameters: &Vec<Parameter>, location: ParameterLocation) -> (lines: Vec<
    Line,
>)
    ensures
        line_views(lines@) == location_group(parameter_views(parameters@), location),
{
    let ghost all = parameter_views(parameters@);
    let mut found: Vec<Line> = Vec::new();
    let mut i: usize = 0;
    assert(all.take(0) =~= Seq::<ParameterView>::empty());
    assert(line_views(found@) =~= Seq::empty());
    while i < parameters.len()
        invariant
            i <= parameters.len(),
            all == parameter_views(parameters@),
            line_views(found@) == located_lines(all.take(i as int), location),
        decreases parameters.len() - i,
    {
        assert(all.take(i + 1).drop_last() =~= all.take(i as int));
        assert(all.take(i + 1).last() == parameters@[i as int]@);
        if parameters[i].location == location {
            append_lines(&mut found, build_parameter_lines(&parameters[i]));
        } else {
            assert(line_views(found@) =~= line_views(found@) + Seq::<Seq<SpanView>>::empty());
        }
        i = i + 1;
    }
    assert(all.take(parameters.len() as int) =~= all);
    let mut lines: Vec<Line> = Vec::new();
    assert(line_views(lines@) =~= Seq::empty());
    if found.len() > 0 {
        let mut text = "  ".to_owned();
        text.append(location.to_string().as_str());
        lines.push(Line::styled(text, Style::default().fg(Color::DarkGray)));
        assert(line_views(lines@) =~= seq![
            line_of("  "@ + location.label(), Style::colored(Color::DarkGray)),
        ]);
        append_lines(&mut lines, found);
    }
    lines
}

/// Builds the parameter section.
fn build_parameters_section(parameters: &Vec<Parameter>) -> (lines: Vec<Line>)
    ensures
        line_views(lines@) == parameters_section(parameter_views(parameters@)),
{
    let mut lines: Vec<Line> = Vec::new();
    assert(line_views(lines@) =~= Seq::empty());
    if parameters.len() > 0 {
        lines.push(Line::styled("Parameters".to_owned(), Style::default().fg(Color::Cyan).bold()));
        assert(line_views(lines@) =~= seq![line_of("Parameters"@, Style::heading(Color::Cyan))]);
        append_lines(&mut lines, build_location_group(parameters, ParameterLocation::Path));
        append_lines(&mut lines, build_location_group(parameters, ParameterLocation::Query));
        append_lines(&mut lines, build_location_group(parameters, ParameterLocation::Header));
        append_lines(&mut lines, build_location_group(parameters, ParameterLocation::Cookie));
        let ghost before = line_views(lines@);
        lines.push(Line::blank());
        assert(line_views(lines@) =~= before + seq![blank_line()]);
    }
    lines
}

/// Builds the line of content types.
fn build_content_type_lines(content_types: &Vec<String>, indent: &str) -> (lines: Vec<Line>)
    ensures
        line_views(lines@) == content_type_lines(texts(content_types@), indent@),
{
    let mut lines: Vec<Line> = Vec::new();
    if content_types.len() > 0 {
        let mut text = indent.to_owned();
        text.append("Content-Type: ");
        text.append(join_texts(content_types, ", ").as_str());
        lines.push(Line::styled(text, Style::default().fg(Color::DarkGray)));
        assert(line_views(lines@) =~= content_type_lines(texts(content_types@), indent@));
    } else {
        assert(line_views(lines@) =~= Seq::empty());
    }
    lines
}

/// Builds an optional text after a prefix as one line.
fn build_prefixed_line(prefix: &str, text: &Option<String>, color: Color) -> (lines: Vec<Line>)
    ensures
        line_views(lines@) == prefixed_line(prefix@, opt_text(*text), color),
{
    let mut lines: Vec<Line> = Vec::new();
    match text {
        Some(t) => {
            let mut line = prefix.to_owned();
            line.append(t.as_str());
            lines.push(Line::styled(line, Style::default().fg(color)));
            assert(line_views(lines@) =~= prefixed_line(prefix@, Some(t@), color));
        },
        None => {
            assert(line_views(lines@) =~= Seq::empty());
        },
    }
    lines
}

/// Builds the request-body section.
fn build_body_section(body: &Option<RequestBody>) -> (lines: Vec<Line>)
    ensures
        line_views(lines@) == body_section(opt_body(*body)),
{
    let mut lines: Vec<Line> = Vec::new();
    match body {
        Some(b) => {
            let mut heading = "Request Body".to_owned();
            if b.required {
                heading.append(" (required)");
            }
            assert(heading@ =~= "Request Body"@ + if b.required {
                " (required)"@
            } else {
                Seq::empty()
            });
            lines.push(Line::styled(heading, Style::default().fg(Color::Cyan).bold()));
            assert(line_views(lines@) =~= seq![line_of(heading@, Style::heading(Color::Cyan))]);
            append_lines(&mut lines, build_content_type_lines(&b.content_types, "  "));
            append_lines(&mut lines, build_prefixed_line("  ", &b.description, Color::Gray));
            append_lines(&mut lines, build_prefixed_line("  Schema: ", &b.schema, Color::Gray));
            let ghost before = line_views(lines@);
            lines.push(Line::blank());
            assert(line_views(lines@) =~= before + seq![blank_line()]);
        },
        None => {
            assert(line_views(lines@) =~= Seq::empty());
        },
    }
    lines
}

/// Builds the lines of one response.
fn build_response_lines(status: &str, response: &Response) -> (lines: Vec<Line>)
    ensures
        line_views(lines@) == response_lines(status@, response@),
{
    let mut spans: Vec<Span> = Vec::new();
    spans.push(Span::raw("  "));
    spans.push(Span::styled(status.to_owned(), Style::default().fg(status_code_color(status))));
    spans.push(Span::raw(" - "));
    spans.push(Span::styled(response.description.clone(), Style::default().fg(Color::White)));
    let head = Line { spans };
    let mut lines: Vec<Line> = Vec::new();
    lines.push(head);
    proof {
        assert(lines@[0]@ =~= response_lines(status@, response@)[0]);
        assert(line_views(lines@) =~= seq![response_lines(status@, response@)[0]]);
    }
    append_lines(&mut lines, build_content_type_lines(&response.content_types, "    "));
    append_lines(
        &mut lines,
        build_prefixed_line("    Schema: ", &response.schema, Color::DarkGray),
    );
    lines
}

/// Builds the response section.
fn build_responses_section(entries: &Vec<(String, Response)>) -> (lines: Vec<Line>)
    ensures
        line_views(lines@) == responses_section(pair_views(entries@)),
{
    let ghost all = pair_views(entries@);
    let mut lines: Vec<Line> = Vec::new();
    assert(line_views(lines@) =~= Seq::empty());
    if entries.len() > 0 {
        lines.push(Line::styled("Responses".to_owned(), Style::default().fg(Color::Cyan).bold()));
        let ghost heading = seq![line_of("Responses"@, Style::heading(Color::Cyan))];
        assert(line_views(lines@) =~= heading);
        let mut i: usize = 0;
        assert(all.take(0) =~= Seq::<(Seq<char>, ResponseView)>::empty());
        assert(heading =~= heading + listed_responses(all.take(0)));
        while i < entries.len()
            invariant
                i <= entries.len(),
                all == pair_views(entries@),
                line_views(lines@) == heading + listed_responses(all.take(i as int)),
            decreases entries.len() - i,
        {
            assert(all.take(i + 1).drop_last() =~= all.take(i as int));
            assert(all.take(i + 1).last() == (entries@[i as int].0@, entries@[i as int].1@));
            let ghost before = listed_responses(all.take(i as int));
            let more = build_response_lines(entries[i].0.as_str(), &entries[i].1);
            assert(heading + before + line_views(more@) =~= heading + (before + line_views(
                more@,
            )));
            append_lines(&mut lines, more);
            i = i + 1;
        }
        assert(all.take(entries.len() as int) =~= all);
    }
    lines
}

/// Builds the content of the detail pane for an endpoint: the verb and
/// path, summary and description, then the parameters by location, the
/// request body, and the responses in ascending order of their status
/// labels.
pub fn build_detail_content(endpoint: &Endpoint) -> (lines: Vec<Line>)
    ensures
        line_views(lines@) == detail_content(endpoint@, endpoint.responses.listing()),
{
    let mut spans: Vec<Span> = Vec::new();
    spans.push(
        Span::styled(
            endpoint.method.to_string(),
            Style::default().fg(method_color(&endpoint.method)).bold(),
        ),
    );
    spans.push(Span::raw(" "));
    spans.push(Span::styled(endpoint.path.clone(), Style::default().bold()));
    let title = Line { spans };
    let mut lines: Vec<Line> = Vec::new();
    lines.push(title);
    lines.push(Line::blank());
    proof {
        assert(lines@[0]@ =~= title_line(endpoint@));
        assert(line_views(lines@) =~= seq![title_line(endpoint@), blank_line()]);
    }
    append_lines(&mut lines, build_paragraph(&endpoint.summary, Color::White));
    append_lines(&mut lines, build_paragraph(&endpoint.description, Color::Gray));
    append_lines(&mut lines, build_parameters_section(&endpoint.parameters));
    append_lines(&mut lines, build_body_section(&endpoint.request_body));
    append_lines(&mut lines, build_responses_section(endpoint.responses.entries()));
    lines
}

/// What the detail pane says when no endpoint is selected.
pub open spec fn no_selection() -> Seq<Seq<SpanView>> {
    seq![line_of("No endpoint selected"@, Style::plain())]
}

/// Builds the content of the detail pane of a session: that of the
/// selected endpoint, or a note that none is selected.
pub fn detail_view_content(app: &App) -> (lines: Vec<Line>)
    ensures
        line_views(lines@) == match app.selected() {
            Some(endpoint) => detail_content(endpoint@, endpoint.responses.listing()),
            None => no_selection(),
        },
{
    match app.selected_endpoint() {
        Some(endpoint) => build_detail_content(endpoint),
        None => {
            let mut lines: Vec<Line> = Vec::new();
            lines.push(Line::raw("No endpoint selected"));
            assert(line_views(lines@) =~= no_selection());
            lines
        },
    }
}

/// The entry of an endpoint in the list: the verb in its colour, filled up
/// to the width of the column, and the path.
pub open spec fn list_entry(endpoint: EndpointView) -> Seq<SpanView> {
    seq![
        span_of(padded(endpoint.method.label(), 7), Style::colored(method_color_of(endpoint.method))),
        span_of(" "@, Style::plain()),
        span_of(endpoint.path, Style::plain()),
    ]
}

/// Builds the entry of an endpoint in the list.
pub fn list_item(endpoint: &Endpoint) -> (line: Line)
    ensures
        line@ == list_entry(endpoint@),
{
    let mut spans: Vec<Span> = Vec::new();
    spans.push(
        Span::styled(
            pad_to(endpoint.method.to_string(), method_width()),
            Style::default().fg(method_color(&endpoint.method)),
        ),
    );
    spans.push(Span::raw(" "));
    spans.push(Span::styled(endpoint.path.clone(), Style::default()));
    let line = Line { spans };
    assert(line@ =~= list_entry(endpoint@));
    line
}

/// The title of the list pane: the API's title and version and, while a
/// confirmed query is in effect, the query and how many endpoints it lets
/// through out of how many.
pub open spec fn list_title_of(app: AppView) -> Seq<char> {
    let name = app.spec.title + " v"@ + app.spec.version;
    if app.search_query.len() > 0 && !app.search_mode {
        name + " ["@ + app.search_query + "] ("@ + decimal(app.filtered_indices.len())
            + "/"@ + decimal(app.spec.endpoints.len()) + ")"@
    } else {
        name
    }
}

/// Builds the title of the list pane.
pub fn list_title(app: &App) -> (title: String)
    ensures
        title@ == list_title_of(app@),
{
    let mut title = app.spec.title.clone();
    title.append(" v");
    title.append(app.spec.version.as_str());
    if !app.search_query.as_str().is_empty() && !app.search_mode {
        title.append(" [");
        title.append(app.search_query.as_str());
        title.append("] (");
        title.append(decimal_text(app.filtered_indices.len()).as_str());
        title.append("/");
        title.append(decimal_text(app.spec.endpoints.len()).as_str());
        title.append(")");
    }
    title
}

/// The text of the search bar: a slash and the query.
pub fn search_bar_text(app: &App) -> (text: String)
    ensures
        text@ == "/"@ + app.search_query@,
{
    let mut text = "/".to_owned();
    text.append(app.search_query.as_str());
    text
}

/// Whether the list pane is shown as focused: it has the focus and the
/// query is not being edited.
pub fn list_is_focused(app: &App) -> (b: bool)
    ensures
        b == (app.focus == Focus::List && !app.search_mode),
{
    app.focus == Focus::List && !app.search_mode
}

/// Whether the detail pane is shown as focused.
pub fn detail_is_focused(app: &App) -> (b: bool)
    ensures
        b == (app.focus == Focus::Detail),
{
    app.focus == Focus::Detail
}

} // verus!
