//! The web server's decisions: connection limit, request parsing, JSON API,
//! routing and responses.
use crate::ipc::{Command, FaceMood};
use crate::json::{borrow_text, is_single, read_flag, read_pair, read_text};
use crate::text::{first_line, same_text, split_once, utf8_text};
use vstd::prelude::*;
use vstd::slice::slice_subrange;
use vstd::utf8::*;

verus! {

/// Largest number of simultaneous HTTP connections.
///
/// Each connection holds socket buffers of its own, and there is memory for two.
pub const MAX_CONNECTIONS: usize = 2;

/// The number of open HTTP connections, which is its view. It is changed only
/// through [`ConnectionGuard`].
pub struct ConnectionCount {
    active: usize,
}

impl View for ConnectionCount {
    type V = usize;

    closed spec fn view(&self) -> usize {
        self.active
    }
}

impl ConnectionCount {
    /// No connection is open.
    pub fn new() -> (count: ConnectionCount)
        ensures
            count@ == 0,
    {
        ConnectionCount { active: 0 }
    }
}

/// Stands for one open connection. It comes from
/// [`ConnectionGuard::try_acquire`] alone, and its slot becomes free by
/// [`ConnectionGuard::release`], which the owner calls when the connection ends.
#[must_use]
pub struct ConnectionGuard {
    slot: (),
}

/// The count after one more connection, where the limit allows one.
pub open spec fn count_acquired(active: usize) -> Option<usize> {
    if active < MAX_CONNECTIONS {
        Some((active + 1) as usize)
    } else {
        None
    }
}

/// The count after a guard is released, in wrapping arithmetic.
pub open spec fn count_released(active: usize) -> usize {
    if active == 0 {
        usize::MAX
    } else {
        (active - 1) as usize
    }
}

impl ConnectionGuard {
    /// Attempts to register a new connection.
    ///
    /// There is a guard when less than [`MAX_CONNECTIONS`] are open. Otherwise the
    /// count stays as it is, and the client is to be sent [`RESPONSE_503`].
    pub fn try_acquire(count: &mut ConnectionCount) -> (guard: Option<ConnectionGuard>)
        ensures
            guard is Some <==> count_acquired(old(count)@) is Some,
            final(count)@ == (match count_acquired(old(count)@) {
                Some(more) => more,
                None => old(count)@,
            }),
    {
        if count.active < MAX_CONNECTIONS {
            count.active = count.active + 1;
            Some(ConnectionGuard { slot: () })
        } else {
            None
        }
    }

    /// The number of open connections.
    pub fn active(count: &ConnectionCount) -> (active: usize)
        ensures
            active == count@,
    {
        count.active
    }

    /// Gives the connection's slot back.
    pub fn release(self, count: &mut ConnectionCount)
        ensures
            final(count)@ == count_released(old(count)@),
    {
        count.active = count.active.wrapping_sub(1);
    }
}

/// HTTP method of a request line.
#[derive(Debug, Clone, PartialEq, Eq, Structural)]
pub enum Method {
    Get,
    Post,
    Other,
}

/// The relevant parts of an HTTP/1.x request.
#[derive(Debug, Clone, PartialEq, Eq)]
pub struct RequestParts<'a> {
    /// HTTP method.
    pub method: Method,
    /// Request path, without any query string.
    pub path: &'a str,
    /// Raw body bytes; empty for a request without a body.
    pub body: &'a [u8],
}

/// The content of a [`RequestParts`].
#[verifier::ext_equal]
pub struct RequestView {
    pub method: Method,
    pub path: Seq<char>,
    pub body: Seq<u8>,
}

impl<'a> View for RequestParts<'a> {
    type V = RequestView;

    open spec fn view(&self) -> RequestView {
        RequestView { method: self.method, path: self.path@, body: self.body@ }
    }
}

/// The indices at which `raw` has the blank line `\r\n\r\n` that ends the headers.
pub open spec fn ends_headers(raw: Seq<u8>) -> spec_fn(int) -> bool {
    |i: int| raw[i] == 13 && raw[i + 1] == 10 && raw[i + 2] == 13 && raw[i + 3] == 10
}

/// Where the first `\r\n\r\n` of `raw` starts.
pub open spec fn headers_end(raw: Seq<u8>) -> Option<int> {
    crate::text::first_index(ends_headers(raw), 0, raw.len() - 3)
}

/// What follows the headers; nothing where they do not end.
pub open spec fn body_of(raw: Seq<u8>) -> Seq<u8> {
    match headers_end(raw) {
        Some(i) => raw.skip(i + 4),
        None => Seq::empty(),
    }
}

/// The method that a token of the request line names.
pub open spec fn method_of(token: Seq<char>) -> Method {
    if token == "GET"@ {
        Method::Get
    } else if token == "POST"@ {
        Method::Post
    } else {
        Method::Other
    }
}

/// The path in what follows the method on a request line: the token up to the
/// next space, without its query string.
pub open spec fn path_of(rest: Seq<char>) -> Seq<char> {
    crate::text::until_char(crate::text::until_char(rest, ' '), '?')
}

/// The request that `raw` holds: valid UTF-8 whose first line has a space in it.
pub open spec fn request_of(raw: Seq<u8>) -> Option<RequestView> {
    if valid_utf8(raw) {
        match crate::text::line_end(decode_utf8(raw)) {
            Some(end) => {
                let line = decode_utf8(raw).take(end);
                match crate::text::index_of_char(line, ' ') {
                    Some(space) => Some(
                        RequestView {
                            method: method_of(line.take(space)),
                            path: path_of(line.skip(space + 1)),
                            body: body_of(raw),
                        },
                    ),
                    None => None,
                }
            },
            None => None,
        }
    } else {
        None
    }
}

/// Finds the offset of the body: the position right behind the first
/// `\r\n\r\n`.
pub fn find_body_start(raw: &[u8]) -> (start: Option<usize>)
    ensures
        match headers_end(raw@) {
            Some(i) => start matches Some(s) && s == i + 4,
            None => start is None,
        },
{
    let ghost p = ends_headers(raw@);
    proof {
        crate::text::lemma_first_index(p, 0, raw@.len() - 3);
    }
    let mut at: usize = 0;
    while at < raw.len() && raw.len() - at > 3
        invariant
            at <= raw@.len(),
            p == ends_headers(raw@),
            forall|j: int| 0 <= j < at && j < raw@.len() - 3 ==> !#[trigger] p(j),
            headers_end(raw@) matches Some(i) ==> 0 <= i < raw@.len() - 3 && p(i) && forall|j: int|
                0 <= j < i ==> !#[trigger] p(j),
            headers_end(raw@) is None ==> forall|j: int| 0 <= j < raw@.len() - 3 ==> !#[trigger] p(j),
        decreases raw@.len() - at,
    {
        if raw[at] == 13 && raw[at + 1] == 10 && raw[at + 2] == 13 && raw[at + 3] == 10 {
            assert(p(at as int));
            return Some(at + 4);
        }
        assert(!p(at as int));
        at += 1;
    }
    None
}

/// Parses an HTTP/1.x request from raw bytes.
///
/// There is no request where the bytes are not UTF-8, where no `\r\n` ends the
/// request line, or where that line has no space. Everything from `?` on is
/// stripped from the path, so that routing does not depend on a query string.
pub fn parse_request<'a>(raw: &'a [u8]) -> (request: Option<RequestParts<'a>>)
    ensures
        match request {
            Some(parts) => request_of(raw@) == Some(parts@),
            None => request_of(raw@) is None,
        },
{
    let text: &'a str = match utf8_text(raw) {
        Some(text) => text,
        None => {
            return None;
        },
    };
    let line: &'a str = match first_line(text) {
        Some(line) => line,
        None => {
            return None;
        },
    };
    let (token, rest): (&'a str, &'a str) = match split_once(line, ' ') {
        Some(parts) => parts,
        None => {
            return None;
        },
    };
    let target: &'a str = match split_once(rest, ' ') {
        Some((target, _)) => target,
        None => rest,
    };
    let path: &'a str = match split_once(target, '?') {
        Some((path, _)) => path,
        None => target,
    };
    let method = if same_text(token, "GET") {
        Method::Get
    } else if same_text(token, "POST") {
        Method::Post
    } else {
        Method::Other
    };
    proof {
        crate::text::lemma_first_index(ends_headers(raw@), 0, raw@.len() - 3);
    }
    let body: &'a [u8] = match find_body_start(raw) {
        Some(start) => slice_subrange(raw, start, raw.len()),
        None => slice_subrange(raw, 0, 0),
    };
    assert(body@ =~= body_of(raw@));
    Some(RequestParts { method, path, body })
}

/// The JSON command that a client posts to `/api/command`.
///
/// - `{"SetFaceExpression": "Happy" | "Sad" | "Neutral" | "Surprised"}`
/// - `{"MoveServo": [servo_id, angle_degrees]}` with an angle of 0 to 180
/// - `{"StreamAudio": true | false}`
/// - `{"StreamVideo": true | false}`
#[derive(Debug, PartialEq)]
pub enum ApiCommand {
    SetFaceExpression(heapless::String<16>),
    MoveServo((u8, u16)),
    StreamAudio(bool),
    StreamVideo(bool),
}

/// The content of an [`ApiCommand`].
#[verifier::ext_equal]
pub enum ApiView {
    SetFaceExpression(Seq<char>),
    MoveServo(u8, u16),
    StreamAudio(bool),
    StreamVideo(bool),
}

impl View for ApiCommand {
    type V = ApiView;

    open spec fn view(&self) -> ApiView {
        match *self {
            ApiCommand::SetFaceExpression(name) => ApiView::SetFaceExpression(
                crate::json::text_of(name),
            ),
            ApiCommand::MoveServo((id, angle)) => ApiView::MoveServo(id, angle),
            ApiCommand::StreamAudio(on) => ApiView::StreamAudio(on),
            ApiCommand::StreamVideo(on) => ApiView::StreamVideo(on),
        }
    }
}

/// Largest angle in degrees to which a servo may be moved.
pub const MAX_SERVO_ANGLE: u16 = 180;

/// The mood that a client means by `name`.
pub open spec fn mood_named(name: Seq<char>) -> Option<FaceMood> {
    if name == "Happy"@ {
        Some(FaceMood::Happy)
    } else if name == "Sad"@ {
        Some(FaceMood::Sad)
    } else if name == "Neutral"@ {
        Some(FaceMood::Neutral)
    } else if name == "Surprised"@ {
        Some(FaceMood::Surprised)
    } else {
        None
    }
}

/// The command that an API command stands for, if it is an acceptable one.
pub open spec fn command_of(api: ApiView) -> Option<Command> {
    match api {
        ApiView::SetFaceExpression(name) => match mood_named(name) {
            Some(mood) => Some(Command::SetFaceExpression(mood)),
            None => None,
        },
        ApiView::MoveServo(id, angle) => if angle <= MAX_SERVO_ANGLE {
            Some(Command::MoveServo(id, angle))
        } else {
            None
        },
        ApiView::StreamAudio(on) => Some(Command::StreamAudio(on)),
        ApiView::StreamVideo(on) => Some(Command::StreamVideo(on)),
    }
}

/// Turns an [`ApiCommand`] into a [`Command`].
///
/// Nothing comes of an unknown expression name, nor of an angle beyond 180
/// degrees.
pub fn api_command_to_command(api: ApiCommand) -> (command: Option<Command>)
    ensures
        command == command_of(api@),
        api matches ApiCommand::MoveServo((id, angle)) ==> command == (if angle <= 180 {
            Some(Command::MoveServo(id, angle))
        } else {
            None
        }),
        api matches ApiCommand::StreamAudio(on) ==> command == Some(Command::StreamAudio(on)),
        api matches ApiCommand::StreamVideo(on) ==> command == Some(Command::StreamVideo(on)),
        api matches ApiCommand::SetFaceExpression(name) ==> (command is Some
            <==> crate::json::text_of(name) == "Happy"@ || crate::json::text_of(name) == "Sad"@
            || crate::json::text_of(name) == "Neutral"@ || crate::json::text_of(name)
            == "Surprised"@) && (command matches Some(c) ==> c is SetFaceExpression),
{
    match api {
        ApiCommand::SetFaceExpression(name) => {
            let name = borrow_text(&name);
            let mood = if same_text(name, "Happy") {
                FaceMood::Happy
            } else if same_text(name, "Sad") {
                FaceMood::Sad
            } else if same_text(name, "Neutral") {
                FaceMood::Neutral
            } else if same_text(name, "Surprised") {
                FaceMood::Surprised
            } else {
                return None;
            };
            Some(Command::SetFaceExpression(mood))
        },
        ApiCommand::MoveServo((id, angle)) => {
            if angle > MAX_SERVO_ANGLE {
                return None;
            }
            Some(Command::MoveServo(id, angle))
        },
        ApiCommand::StreamAudio(on) => Some(Command::StreamAudio(on)),
        ApiCommand::StreamVideo(on) => Some(Command::StreamVideo(on)),
    }
}

/// The value of a member, if its key is `key`.
pub open spec fn value_under<T>(member: Option<(Seq<char>, T)>, key: Seq<char>) -> Option<T> {
    match member {
        Some((k, value)) => if k == key {
            Some(value)
        } else {
            None
        },
        None => None,
    }
}

/// The API command in a JSON body, given what the body reads as: its member, if
/// it is a text, a pair or a flag, and whether it is the only one.
pub open spec fn api_of(
    text: Option<(Seq<char>, Seq<char>)>,
    pair: Option<(Seq<char>, (u8, u16))>,
    flag: Option<(Seq<char>, bool)>,
    single: bool,
) -> Option<ApiView> {
    if !single {
        None
    } else if let Some(name) = value_under(text, "SetFaceExpression"@) {
        Some(ApiView::SetFaceExpression(name))
    } else if let Some((id, angle)) = value_under(pair, "MoveServo"@) {
        Some(ApiView::MoveServo(id, angle))
    } else if let Some(on) = value_under(flag, "StreamAudio"@) {
        Some(ApiView::StreamAudio(on))
    } else if let Some(on) = value_under(flag, "StreamVideo"@) {
        Some(ApiView::StreamVideo(on))
    } else {
        None
    }
}

/// Picks the API command out of what a JSON body reads as.
pub fn select_api_command(
    text: Option<(&str, heapless::String<16>)>,
    pair: Option<(&str, (u8, u16))>,
    flag: Option<(&str, bool)>,
    single: bool,
) -> (api: Option<ApiCommand>)
    ensures
        ({
            let expected = api_of(
                crate::json::text_member(text),
                crate::json::pair_member(pair),
                crate::json::flag_member(flag),
                single,
            );
            match api {
                Some(a) => expected == Some(a@),
                None => expected is None,
            }
        }),
{
    if !single {
        return None;
    }
    if let Some((key, name)) = text {
        if same_text(key, "SetFaceExpression") {
            return Some(ApiCommand::SetFaceExpression(name));
        }
    }
    if let Some((key, pair)) = pair {
        if same_text(key, "MoveServo") {
            return Some(ApiCommand::MoveServo(pair));
        }
    }
    if let Some((key, on)) = flag {
        if same_text(key, "StreamAudio") {
            return Some(ApiCommand::StreamAudio(on));
        }
        if same_text(key, "StreamVideo") {
            return Some(ApiCommand::StreamVideo(on));
        }
    }
    None
}

/// The command in a JSON body.
pub open spec fn body_command(body: Seq<u8>) -> Option<Command> {
    match api_of(
        crate::json::json_text(body),
        crate::json::json_pair(body),
        crate::json::json_flag(body),
        crate::json::json_single(body),
    ) {
        Some(api) => command_of(api),
        None => None,
    }
}

/// Reads a JSON body into a [`Command`].
///
/// Nothing comes of a body that is no JSON, that has another top-level key than
/// those of [`ApiCommand`], or whose API command is not acceptable.
pub fn parse_api_body(body: &[u8]) -> (command: Option<Command>)
    ensures
        command == body_command(body@),
        body@.len() == 0 ==> command is None,
{
    let text = read_text(body);
    let pair = read_pair(body);
    let flag = read_flag(body);
    if text.is_none() && pair.is_none() && flag.is_none() {
        return None;
    }
    let single = is_single(body);
    match select_api_command(text, pair, flag, single) {
        Some(api) => api_command_to_command(api),
        None => None,
    }
}

/// `200 OK` head of an HTML response; the index page follows.
pub const RESPONSE_200_HTML: &'static str =
    "HTTP/1.1 200 OK\r\nContent-Type: text/html; charset=utf-8\r\nConnection: close\r\n\r\n";

/// `200 OK` head of a JSON response; the body `{}` follows.
pub const RESPONSE_200_JSON: &'static str =
    "HTTP/1.1 200 OK\r\nContent-Type: application/json\r\nConnection: close\r\n\r\n";

/// Complete `400 Bad Request` response.
pub const RESPONSE_400: &'static str = "HTTP/1.1 400 Bad Request\r\nConnection: close\r\n\r\n";

/// Complete `404 Not Found` response.
pub const RESPONSE_404: &'static str = "HTTP/1.1 404 Not Found\r\nConnection: close\r\n\r\n";

/// Complete `503 Service Unavailable` response, for a client beyond the connection
/// limit. It advises the client to try again after a second.
pub const RESPONSE_503: &'static str =
    "HTTP/1.1 503 Service Unavailable\r\nRetry-After: 1\r\nConnection: close\r\n\r\n";

/// `200 OK` head of an MJPEG stream; JPEG frames follow as multipart body parts, each
/// with the head that [`part_head`] gives and [`PART_END`] behind it.
pub const RESPONSE_200_MJPEG: &'static str =
    "HTTP/1.1 200 OK\r\nContent-Type: multipart/x-mixed-replace; boundary=frame\r\nConnection: keep-alive\r\n\r\n";

/// `200 OK` head of a stream of 16-bit mono PCM audio at 16 kHz.
pub const RESPONSE_200_AUDIO: &'static str =
    "HTTP/1.1 200 OK\r\nContent-Type: audio/l16; rate=16000; channels=1\r\nConnection: keep-alive\r\n\r\n";

/// Outcome of routing a single HTTP request.
#[derive(Debug, Clone, PartialEq, Eq, Structural)]
pub enum RouteResult {
    /// Serve the index page.
    ServeIndex,
    /// A valid command came in, for the command bus.
    CommandAccepted(Command),
    /// Stream MJPEG video frames from the DMA ring buffer.
    ServeVideoStream,
    /// Stream PCM audio samples from the ping-pong buffers.
    ServeAudioStream,
    /// The body of the command request holds no valid command.
    BadRequest,
    /// No route matched.
    NotFound,
}

/// Whether a request posts to the command endpoint.
pub open spec fn posts_command(method: Method, path: Seq<char>) -> bool {
    method == Method::Post && path == "/api/command"@
}

/// Where a request is routed, given the command in its body.
pub open spec fn route_of(method: Method, path: Seq<char>, command: Option<Command>) -> RouteResult {
    if method == Method::Get && (path == "/"@ || path == "/index.html"@) {
        RouteResult::ServeIndex
    } else if method == Method::Get && path == "/api/stream/video"@ {
        RouteResult::ServeVideoStream
    } else if method == Method::Get && path == "/api/stream/audio"@ {
        RouteResult::ServeAudioStream
    } else if posts_command(method, path) {
        match command {
            Some(command) => RouteResult::CommandAccepted(command),
            None => RouteResult::BadRequest,
        }
    } else {
        RouteResult::NotFound
    }
}

/// Routes a request whose body holds `command`.
pub fn route_with_command(method: &Method, path: &str, command: Option<Command>) -> (route:
    RouteResult)
    ensures
        route == route_of(*method, path@, command),
{
    match method {
        Method::Get => {
            if same_text(path, "/") || same_text(path, "/index.html") {
                RouteResult::ServeIndex
            } else if same_text(path, "/api/stream/video") {
                RouteResult::ServeVideoStream
            } else if same_text(path, "/api/stream/audio") {
                RouteResult::ServeAudioStream
            } else {
                RouteResult::NotFound
            }
        },
        Method::Post => {
            if same_text(path, "/api/command") {
                match command {
                    Some(command) => RouteResult::CommandAccepted(command),
                    None => RouteResult::BadRequest,
                }
            } else {
                RouteResult::NotFound
            }
        },
        Method::Other => RouteResult::NotFound,
    }
}

/// Where a request is routed.
pub open spec fn request_route(request: RequestView) -> RouteResult {
    route_of(request.method, request.path, body_command(request.body))
}

/// Routes a parsed HTTP request.
pub fn route_request(req: &RequestParts<'_>) -> (route: RouteResult)
    ensures
        route == request_route(req@),
        posts_command(req.method, req.path@) && req.body@.len() == 0 ==> route
            == RouteResult::BadRequest,
{
    let command = match req.method {
        Method::Post => {
            if same_text(req.path, "/api/command") {
                parse_api_body(req.body)
            } else {
                None
            }
        },
        _ => None,
    };
    route_with_command(&req.method, req.path, command)
}

/// What follows the head of a response.
#[derive(Debug, Clone, Copy, PartialEq, Eq, Structural)]
pub enum ResponseBody {
    /// Nothing.
    Empty,
    /// The index page.
    IndexPage,
    /// The empty JSON object `{}`.
    EmptyObject,
    /// JPEG frames, as long as the client stays.
    VideoFrames,
    /// PCM audio frames, as long as the client stays.
    AudioFrames,
}

/// The answer to a request: the head to write, what follows it, and the command
/// for the bus, if any.
#[derive(Debug, Clone, Copy)]
pub struct Response {
    pub head: &'static str,
    pub body: ResponseBody,
    pub command: Option<Command>,
}

/// The head with which a route is answered.
pub open spec fn head_of(route: RouteResult) -> Seq<char> {
    match route {
        RouteResult::ServeIndex => RESPONSE_200_HTML@,
        RouteResult::CommandAccepted(_) => RESPONSE_200_JSON@,
        RouteResult::ServeVideoStream => RESPONSE_200_MJPEG@,
        RouteResult::ServeAudioStream => RESPONSE_200_AUDIO@,
        RouteResult::BadRequest => RESPONSE_400@,
        RouteResult::NotFound => RESPONSE_404@,
    }
}

/// What follows the head with which a route is answered.
pub open spec fn response_body_of(route: RouteResult) -> ResponseBody {
    match route {
        RouteResult::ServeIndex => ResponseBody::IndexPage,
        RouteResult::CommandAccepted(_) => ResponseBody::EmptyObject,
        RouteResult::ServeVideoStream => ResponseBody::VideoFrames,
        RouteResult::ServeAudioStream => ResponseBody::AudioFrames,
        RouteResult::BadRequest => ResponseBody::Empty,
        RouteResult::NotFound => ResponseBody::Empty,
    }
}

/// The command that a route puts on the bus.
pub open spec fn accepted_command(route: RouteResult) -> Option<Command> {
    match route {
        RouteResult::CommandAccepted(command) => Some(command),
        _ => None,
    }
}

/// The answer to a routed request.
pub fn respond(route: &RouteResult) -> (response: Response)
    ensures
        response.head@ == head_of(*route),
        response.body == response_body_of(*route),
        response.command == accepted_command(*route),
        response.command is Some <==> response.head@ == RESPONSE_200_JSON@,
        response.command is Some <==> *route is CommandAccepted,
        response.head@ == RESPONSE_400@ <==> *route is BadRequest,
        response.head@ == RESPONSE_404@ <==> *route is NotFound,
{
    proof {
        lemma_answers_agree_with_deeds(*route);
        lemma_heads_tell_routes_apart(*route);
    }
    match route {
        RouteResult::ServeIndex => Response {
            head: RESPONSE_200_HTML,
            body: ResponseBody::IndexPage,
            command: None,
        },
        RouteResult::CommandAccepted(command) => Response {
            head: RESPONSE_200_JSON,
            body: ResponseBody::EmptyObject,
            command: Some(*command),
        },
        RouteResult::ServeVideoStream => Response {
            head: RESPONSE_200_MJPEG,
            body: ResponseBody::VideoFrames,
            command: None,
        },
        RouteResult::ServeAudioStream => Response {
            head: RESPONSE_200_AUDIO,
            body: ResponseBody::AudioFrames,
            command: None,
        },
        RouteResult::BadRequest => Response {
            head: RESPONSE_400,
            body: ResponseBody::Empty,
            command: None,
        },
        RouteResult::NotFound => Response {
            head: RESPONSE_404,
            body: ResponseBody::Empty,
            command: None,
        },
    }
}

/// Milliseconds to wait for the next video frame while none is ready.
pub const VIDEO_WAIT_MS: u64 = 10;

/// Milliseconds between audio frames: the length of one.
pub const AUDIO_WAIT_MS: u64 = 32;

/// What a stream does next.
#[derive(Debug, Clone, Copy, PartialEq, Eq, Structural)]
pub enum StreamStep {
    /// Send nothing, and wait this many milliseconds.
    Wait(u64),
    /// Send the frame that is ready.
    SendFrame,
    /// Send the frame that is ready, then wait this many milliseconds.
    SendFrameThenWait(u64),
}

/// What a video stream does next, with a newest frame of `frame_len` bytes.
pub open spec fn video_step_of(frame_len: nat) -> StreamStep {
    if frame_len > 0 {
        StreamStep::SendFrame
    } else {
        StreamStep::Wait(VIDEO_WAIT_MS)
    }
}

/// What an audio stream does next, with `ready_len` bytes ready.
pub open spec fn audio_step_of(ready_len: nat) -> StreamStep {
    if ready_len > 0 {
        StreamStep::SendFrameThenWait(AUDIO_WAIT_MS)
    } else {
        StreamStep::Wait(AUDIO_WAIT_MS)
    }
}

/// What a video stream does next, given the length of the newest frame.
pub fn video_step(frame_len: usize) -> (step: StreamStep)
    ensures
        step == (if frame_len == 0 {
            StreamStep::Wait(VIDEO_WAIT_MS)
        } else {
            StreamStep::SendFrame
        }),
        step == video_step_of(frame_len as nat),
{
    if frame_len == 0 {
        StreamStep::Wait(VIDEO_WAIT_MS)
    } else {
        StreamStep::SendFrame
    }
}

/// What an audio stream does next, given the number of bytes that are ready.
pub fn audio_step(ready_len: usize) -> (step: StreamStep)
    ensures
        step == (if ready_len == 0 {
            StreamStep::Wait(AUDIO_WAIT_MS)
        } else {
            StreamStep::SendFrameThenWait(AUDIO_WAIT_MS)
        }),
        step == audio_step_of(ready_len as nat),
{
    if ready_len == 0 {
        StreamStep::Wait(AUDIO_WAIT_MS)
    } else {
        StreamStep::SendFrameThenWait(AUDIO_WAIT_MS)
    }
}

/// The start of the head of a JPEG frame in an MJPEG stream; the frame's length
/// follows.
pub const PART_START: &'static str = "--frame\r\nContent-Type: image/jpeg\r\nContent-Length: ";

/// The end of the head of a JPEG frame; the frame follows.
pub const PART_HEAD_END: &'static str = "\r\n\r\n";

/// What follows a JPEG frame.
pub const PART_END: &'static str = "\r\n";

/// Largest size of the head of a JPEG frame in bytes.
pub const PART_HEAD_CAPACITY: usize = 75;

/// A decimal digit.
pub open spec fn digit(value: nat) -> char {
    (48 + value) as char
}

/// A number in decimal, without leading zeros.
pub open spec fn decimal(n: nat) -> Seq<char>
    decreases n,
{
    if n < 10 {
        seq![digit(n)]
    } else {
        decimal(n / 10).push(digit(n % 10))
    }
}

/// The head of a JPEG frame of `frame_len` bytes.
pub open spec fn part_head_text(frame_len: nat) -> Seq<char> {
    PART_START@ + decimal(frame_len) + PART_HEAD_END@
}

/// The head of a JPEG frame in an MJPEG stream. Its view is its bytes.
pub struct PartHead {
    bytes: [u8; PART_HEAD_CAPACITY],
    len: usize,
}

impl View for PartHead {
    type V = Seq<u8>;

    closed spec fn view(&self) -> Seq<u8> {
        self.bytes@.take(self.len as int)
    }
}

impl PartHead {
    #[verifier::type_invariant]
    spec fn fits(self) -> bool {
        self.len <= PART_HEAD_CAPACITY
    }

    fn new() -> (head: PartHead)
        ensures
            head@ == Seq::<u8>::empty(),
    {
        PartHead { bytes: [0; PART_HEAD_CAPACITY], len: 0 }
    }

    /// The bytes to write.
    pub fn as_bytes(&self) -> (bytes: &[u8])
        ensures
            bytes@ == self@,
            bytes@.len() <= PART_HEAD_CAPACITY,
    {
        proof {
            use_type_invariant(self);
        }
        slice_subrange(self.bytes.as_slice(), 0, self.len)
    }

    fn push(&mut self, byte: u8)
        requires
            old(self)@.len() < PART_HEAD_CAPACITY,
        ensures
            final(self)@ == old(self)@.push(byte),
    {
        proof {
            use_type_invariant(&*self);
        }
        let at = self.len;
        self.bytes[at] = byte;
        self.len = at + 1;
        assert(self@ =~= old(self)@.push(byte));
    }

    fn push_text(&mut self, text: &str)
        requires
            old(self)@.len() + encode_utf8(text@).len() <= PART_HEAD_CAPACITY,
        ensures
            final(self)@ == old(self)@ + encode_utf8(text@),
    {
        let bytes = text.as_bytes();
        let mut i: usize = 0;
        assert(bytes@.take(0) =~= Seq::<u8>::empty());
        while i < bytes.len()
            invariant
                i <= bytes@.len(),
                bytes@ == encode_utf8(text@),
                old(self)@.len() + bytes@.len() <= PART_HEAD_CAPACITY,
                self@ == old(self)@ + bytes@.take(i as int),
            decreases bytes@.len() - i,
        {
            self.push(bytes[i]);
            i += 1;
            assert(self@ =~= old(self)@ + bytes@.take(i as int));
        }
        assert(bytes@.take(i as int) =~= bytes@);
    }

    fn push_decimal(&mut self, n: usize)
        requires
            old(self)@.len() + decimal(n as nat).len() <= PART_HEAD_CAPACITY,
        ensures
            final(self)@ == old(self)@ + encode_utf8(decimal(n as nat)),
        decreases n,
    {
        proof {
            lemma_decimal_is_ascii(n as nat);
            is_ascii_chars_encode_utf8(decimal(n as nat));
        }
        if n >= 10 {
            proof {
                lemma_decimal_is_ascii((n / 10) as nat);
                is_ascii_chars_encode_utf8(decimal((n / 10) as nat));
            }
            self.push_decimal(n / 10);
        }
        self.push(48 + (n % 10) as u8);
        assert(self@ =~= old(self)@ + encode_utf8(decimal(n as nat)));
    }
}

/// Writes the head of a JPEG frame of `frame_len` bytes.
pub fn part_head(frame_len: usize) -> (head: PartHead)
    ensures
        head@ == encode_utf8(part_head_text(frame_len as nat)),
{
    let mut head = PartHead::new();
    proof {
        lemma_decimal_len(frame_len as nat);
        lemma_decimal_is_ascii(frame_len as nat);
        is_ascii_chars_encode_utf8(decimal(frame_len as nat));
        reveal_strlit("--frame\r\nContent-Type: image/jpeg\r\nContent-Length: ");
        reveal_strlit("\r\n\r\n");
        is_ascii_chars_encode_utf8(PART_START@);
        is_ascii_chars_encode_utf8(PART_HEAD_END@);
        crate::text::lemma_encode_concat(PART_START@, decimal(frame_len as nat));
        crate::text::lemma_encode_concat(
            PART_START@ + decimal(frame_len as nat),
            PART_HEAD_END@,
        );
    }
    head.push_text(PART_START);
    head.push_decimal(frame_len);
    head.push_text(PART_HEAD_END);
    assert(head@ =~= encode_utf8(part_head_text(frame_len as nat)));
    head
}

proof fn lemma_decimal_is_ascii(n: nat)
    ensures
        is_ascii_chars(decimal(n)),
        decimal(n).len() > 0,
    decreases n,
{
    if n >= 10 {
        lemma_decimal_is_ascii(n / 10);
    }
}

/// Ten to the power of `k`.
spec fn power_of_ten(k: nat) -> nat
    decreases k,
{
    if k == 0 {
        1
    } else {
        10 * power_of_ten((k - 1) as nat)
    }
}

proof fn lemma_decimal_len_below(n: nat, k: nat)
    requires
        k > 0,
        n < power_of_ten(k),
    ensures
        decimal(n).len() <= k,
    decreases k,
{
    if n >= 10 {
        reveal_with_fuel(power_of_ten, 2);
        lemma_decimal_len_below(n / 10, (k - 1) as nat);
    }
}

proof fn lemma_decimal_len(n: nat)
    requires
        n <= usize::MAX,
    ensures
        decimal(n).len() <= 20,
{
    reveal_with_fuel(power_of_ten, 21);
    lemma_decimal_len_below(n, 20);
}

/// The number that a text of decimal digits stands for.
pub open spec fn decimal_value(text: Seq<char>) -> nat
    decreases text.len(),
{
    if text.len() == 0 {
        0
    } else {
        (10 * decimal_value(text.drop_last()) + (text.last() as int - 48)) as nat
    }
}

/// The length in the head of a frame is read back as it was written: digits alone,
/// which stand for the number.
pub proof fn lemma_length_is_read_back(n: nat)
    ensures
        decimal_value(decimal(n)) == n,
        forall|i: int| 0 <= i < decimal(n).len() ==> '0' <= #[trigger] decimal(n)[i] <= '9',
    decreases n,
{
    if n >= 10 {
        lemma_length_is_read_back(n / 10);
        assert(decimal(n).drop_last() =~= decimal(n / 10));
    } else {
        assert(decimal(n).drop_last() =~= Seq::empty());
        assert(decimal_value(decimal(n).drop_last()) == 0);
    }
}

/// The head of a frame closes with a blank line, whatever the frame's length.
pub proof fn lemma_part_heads_are_terminated(frame_len: nat)
    ensures
        is_terminated(part_head_text(frame_len)),
{
    reveal_strlit("\r\n\r\n");
}

/// Admits a client, or answers one beyond the connection limit.
pub fn accept_client(count: &mut ConnectionCount) -> (admitted: Result<ConnectionGuard, Response>)
    ensures
        admitted is Ok <==> old(count)@ < MAX_CONNECTIONS,
        final(count)@ == (if old(count)@ < MAX_CONNECTIONS {
            old(count)@ + 1
        } else {
            old(count)@ as int
        }),
        admitted matches Err(refusal) ==> {
            &&& refusal.head@ == RESPONSE_503@
            &&& refusal.body == ResponseBody::Empty
            &&& refusal.command is None
        },
{
    match ConnectionGuard::try_acquire(count) {
        Some(guard) => Ok(guard),
        None => Err(Response { head: RESPONSE_503, body: ResponseBody::Empty, command: None }),
    }
}

/// Answers the request in the bytes that an admitted client sent. Bytes that hold
/// no request are not answered.
pub fn answer(raw: &[u8]) -> (response: Option<Response>)
    ensures
        match request_of(raw@) {
            Some(request) => {
                let route = request_route(request);
                response matches Some(r) && r.head@ == head_of(route) && r.body == response_body_of(
                    route,
                ) && r.command == accepted_command(route)
            },
            None => response is None,
        },
{
    match parse_request(raw) {
        Some(request) => Some(respond(&route_request(&request))),
        None => None,
    }
}

/// What happens to the connections: a client connects, or an admitted one leaves.
pub enum ConnectionEvent {
    Connect,
    Leave,
}

/// The count and the number of guards held, after a run of events from no
/// connection at all.
pub open spec fn connections_after(events: Seq<ConnectionEvent>) -> (usize, int)
    decreases events.len(),
{
    if events.len() == 0 {
        (0, 0)
    } else {
        let (active, held) = connections_after(events.drop_last());
        match events.last() {
            ConnectionEvent::Connect => match count_acquired(active) {
                Some(more) => (more, held + 1),
                None => (active, held),
            },
            ConnectionEvent::Leave => (count_released(active), held - 1),
        }
    }
}

/// A client leaves only while a guard is held.
pub open spec fn guards_cover_leaving(events: Seq<ConnectionEvent>) -> bool {
    forall|i: int|
        0 <= i < events.len() && events[i] is Leave ==> (#[trigger] connections_after(
            events.take(i),
        )).1 > 0
}

/// The count is always the number of guards held, and never beyond
/// [`MAX_CONNECTIONS`].
pub proof fn lemma_connections_are_limited(events: Seq<ConnectionEvent>)
    requires
        guards_cover_leaving(events),
    ensures
        connections_after(events).0 == connections_after(events).1,
        connections_after(events).0 <= MAX_CONNECTIONS,
    decreases events.len(),
{
    if events.len() > 0 {
        let last = events.len() - 1;
        let before = events.drop_last();
        assert(before =~= events.take(last));
        assert forall|i: int| 0 <= i < before.len() && before[i] is Leave implies (
        #[trigger] connections_after(before.take(i))).1 > 0 by {
            assert(before.take(i) =~= events.take(i));
        }
        lemma_connections_are_limited(before);
    }
}

/// Releasing a guard undoes acquiring it.
pub proof fn lemma_release_undoes_acquire(active: usize)
    ensures
        count_acquired(active) matches Some(more) ==> count_released(more) == active,
{
}

/// A slot that was given back can be acquired again.
pub proof fn lemma_released_slot_is_free(active: usize)
    requires
        0 < active <= MAX_CONNECTIONS,
    ensures
        count_acquired(count_released(active)) == Some(active),
{
}

/// Whether the bytes `\r\n\r\n` stand at index `i` of `raw`.
pub open spec fn has_blank_bytes(raw: Seq<u8>, i: int) -> bool {
    raw[i] == 13 && raw[i + 1] == 10 && raw[i + 2] == 13 && raw[i + 3] == 10
}

/// A complete head: its only blank line ends it.
pub open spec fn is_head(head: Seq<u8>) -> bool {
    &&& head.len() >= 4
    &&& has_blank_bytes(head, head.len() - 4)
    &&& forall|i: int| 0 <= i < head.len() - 4 ==> !#[trigger] has_blank_bytes(head, i)
}

/// Bytes without a blank line have no body.
pub proof fn lemma_no_body_without_blank_line(raw: Seq<u8>)
    requires
        forall|i: int| 0 <= i < raw.len() - 3 ==> !#[trigger] has_blank_bytes(raw, i),
    ensures
        body_of(raw) == Seq::<u8>::empty(),
        headers_end(raw) is None,
{
    let p = ends_headers(raw);
    crate::text::lemma_first_index(p, 0, raw.len() - 3);
    if let Some(i) = headers_end(raw) {
        assert(has_blank_bytes(raw, i));
    }
}

/// What stands behind a complete head is the body, whatever it holds.
pub proof fn lemma_body_follows_head(head: Seq<u8>, body: Seq<u8>)
    requires
        is_head(head),
    ensures
        body_of(head + body) == body,
        headers_end(head + body) == Some(head.len() - 4),
{
    let raw = head + body;
    let p = ends_headers(raw);
    crate::text::lemma_first_index(p, 0, raw.len() - 3);
    let at = head.len() - 4;
    assert(p(at));
    assert forall|j: int| 0 <= j < at implies !#[trigger] p(j) by {
        assert(!has_blank_bytes(head, j));
    }
    assert(raw.skip(at + 4) =~= body);
}

/// Whether a blank line starts at index `i` of `t`.
pub open spec fn has_blank_line(t: Seq<char>, i: int) -> bool {
    t[i] == '\r' && t[i + 1] == '\n' && t[i + 2] == '\r' && t[i + 3] == '\n'
}

/// The text of a complete head: its only blank line ends it.
pub open spec fn is_head_text(t: Seq<char>) -> bool {
    &&& t.len() >= 4
    &&& has_blank_line(t, t.len() - 4)
    &&& forall|i: int| 0 <= i < t.len() - 4 ==> !#[trigger] has_blank_line(t, i)
}

proof fn lemma_head_text_is_head(t: Seq<char>)
    requires
        is_head_text(t),
    ensures
        is_head(encode_utf8(t)),
{
    let raw = encode_utf8(t);
    let k = t.len() - 4;
    let end = t.skip(k);
    is_ascii_chars_encode_utf8(end);
    crate::text::lemma_encode_concat(t.take(k), end);
    assert(t.take(k) + end =~= t);
    let at = encode_utf8(t.take(k)).len() as int;
    assert(raw.skip(at) =~= encode_utf8(end));
    assert forall|i: int| 0 <= i < 4 implies raw[at + i] == #[trigger] end[i] as u8 by {
        assert(raw[at + i] == encode_utf8(end)[i]);
    }
    assert(end[0] == '\r' && end[1] == '\n' && end[2] == '\r' && end[3] == '\n');
    assert(has_blank_bytes(raw, at));
    assert forall|j: int| 0 <= j < at implies !#[trigger] has_blank_bytes(raw, j) by {
        if has_blank_bytes(raw, j) {
            let i = crate::text::lemma_ascii_byte(t, j);
            let rest = t.skip(i);
            assert(encode_utf8(rest) =~= raw.skip(j));
            crate::text::lemma_ascii_prefix(rest, 4);
            assert(rest[0] == '\r' && rest[1] == '\n' && rest[2] == '\r' && rest[3] == '\n');
            assert(has_blank_line(t, i));
        }
    }
}

/// Whether a line break starts at index `i` of `t`.
pub open spec fn has_line_break(t: Seq<char>, i: int) -> bool {
    t[i] == '\r' && t[i + 1] == '\n'
}

/// Whether `t` stands on one line.
pub open spec fn is_one_line(t: Seq<char>) -> bool {
    forall|i: int| 0 <= i < t.len() - 1 ==> !#[trigger] has_line_break(t, i)
}

/// The head of a request with this request line, up to and with its blank line.
pub open spec fn head_text(
    method: Seq<char>,
    target: Seq<char>,
    version: Seq<char>,
    fields: Seq<char>,
) -> Seq<char> {
    method + seq![' '] + target + seq![' '] + version + seq!['\r', '\n'] + fields
}

/// In `front + rest` no line break starts in `front`.
spec fn breaks_behind(front: Seq<char>, rest: Seq<char>) -> bool {
    forall|i: int|
        0 <= i < front.len() && i < front.len() + rest.len() - 1 ==> !#[trigger] has_line_break(
            front + rest,
            i,
        )
}

proof fn lemma_line_end_behind(front: Seq<char>, rest: Seq<char>)
    requires
        breaks_behind(front, rest),
    ensures
        crate::text::line_end(front + rest) == (match crate::text::line_end(rest) {
            Some(i) => Some(front.len() + i),
            None => None,
        }),
{
    let t = front + rest;
    let p = crate::text::breaks_line(t);
    let q = crate::text::breaks_line(rest);
    crate::text::lemma_first_index(p, 0, t.len() - 1);
    crate::text::lemma_first_index(q, 0, rest.len() - 1);
    assert forall|j: int| 0 <= j < front.len() && j < t.len() - 1 implies !#[trigger] p(j) by {
        assert(!has_line_break(t, j));
    }
    assert forall|j: int| 0 <= j < rest.len() - 1 implies q(j) == #[trigger] p(front.len() + j) by {}
    if let Some(i) = crate::text::line_end(t) {
        assert(q(i - front.len()));
    }
    if let Some(i) = crate::text::line_end(rest) {
        assert(p(front.len() + i));
    }
}

proof fn lemma_up_to_char(before: Seq<char>, c: char, after: Seq<char>)
    ensures
        crate::text::index_of_char(before + seq![c] + after, c) == (
        match crate::text::index_of_char(before, c) {
            Some(i) => Some(i),
            None => Some(before.len() as int),
        }),
        crate::text::until_char(before + seq![c] + after, c) == crate::text::until_char(before, c),
{
    let t = before + seq![c] + after;
    crate::text::lemma_index_of_char(t, c);
    crate::text::lemma_index_of_char(before, c);
    assert(t[before.len() as int] == c);
    assert(forall|i: int| 0 <= i < before.len() ==> t[i] == before[i]);
    if let Some(i) = crate::text::index_of_char(before, c) {
        assert(t[i] == c);
        assert(t.take(i) =~= before.take(i));
    } else {
        assert(t.take(before.len() as int) =~= before);
    }
}

/// A request is read back as it was written: the method that its first token names,
/// its target without the query string, and the bytes behind its head.
pub proof fn lemma_request_is_read_back(
    method: Seq<char>,
    target: Seq<char>,
    version: Seq<char>,
    fields: Seq<char>,
    content: Seq<char>,
)
    requires
        is_one_line(method),
        is_one_line(target),
        is_one_line(version),
        !method.contains(' '),
        !target.contains(' '),
        is_head_text(head_text(method, target, version, fields)),
    ensures
        request_of(encode_utf8(head_text(method, target, version, fields) + content)) == Some(
            RequestView {
                method: method_of(method),
                path: crate::text::until_char(target, '?'),
                body: encode_utf8(content),
            },
        ),
{
    let head = head_text(method, target, version, fields);
    let text = head + content;
    let raw = encode_utf8(text);
    encode_utf8_valid_utf8(text);
    encode_utf8_decode_utf8(text);
    crate::text::lemma_encode_concat(head, content);
    lemma_head_text_is_head(head);
    lemma_body_follows_head(encode_utf8(head), encode_utf8(content));

    let line = method + seq![' '] + target + seq![' '] + version;
    let behind = seq!['\r', '\n'] + fields + content;
    assert(text =~= line + behind);
    assert forall|i: int| 0 <= i < line.len() implies !#[trigger] has_line_break(line + behind, i) by {
        let m = method.len() as int;
        let t = m + 1 + target.len();
        if i < m - 1 {
            assert(!has_line_break(method, i));
        } else if m + 1 <= i < t - 1 {
            assert(!has_line_break(target, i - m - 1));
        } else if t + 1 <= i < line.len() - 1 {
            assert(!has_line_break(version, i - t - 1));
        }
    }
    lemma_line_end_behind(line, behind);
    let q = crate::text::breaks_line(behind);
    crate::text::lemma_first_index(q, 0, behind.len() - 1);
    assert(q(0));
    assert(text.take(line.len() as int) =~= line);

    let rest = target + seq![' '] + version;
    assert(line =~= method + seq![' '] + rest);
    crate::text::lemma_index_of_char(method, ' ');
    lemma_up_to_char(method, ' ', rest);
    assert(line.take(method.len() as int) =~= method);
    assert(line.skip(method.len() as int + 1) =~= rest);
    crate::text::lemma_index_of_char(target, ' ');
    lemma_up_to_char(target, ' ', version);
}

/// A path has neither a space nor a question mark in it.
pub proof fn lemma_path_has_no_query(rest: Seq<char>, i: int)
    requires
        0 <= i < path_of(rest).len(),
    ensures
        path_of(rest)[i] != ' ',
        path_of(rest)[i] != '?',
{
    let target = crate::text::until_char(rest, ' ');
    crate::text::lemma_index_of_char(rest, ' ');
    crate::text::lemma_index_of_char(target, '?');
}

/// Whether the target of a request, or its path, ends in front of `rest`: there `rest`
/// has a space, a question mark, a line break, or nothing at all.
pub open spec fn ends_path(rest: Seq<char>) -> bool {
    ||| rest.len() == 0
    ||| rest[0] == ' '
    ||| rest[0] == '?'
    ||| rest.len() > 1 && has_line_break(rest, 0)
}

proof fn lemma_body_behind(front: Seq<char>, rest: Seq<char>)
    requires
        breaks_behind(front, rest),
    ensures
        body_of(encode_utf8(front + rest)) == body_of(encode_utf8(rest)),
{
    let t = front + rest;
    let head = encode_utf8(front);
    let tail = encode_utf8(rest);
    let raw = encode_utf8(t);
    crate::text::lemma_encode_concat(front, rest);
    let n = head.len() as int;
    let p = ends_headers(raw);
    let q = ends_headers(tail);
    crate::text::lemma_first_index(p, 0, raw.len() - 3);
    crate::text::lemma_first_index(q, 0, tail.len() - 3);
    assert forall|j: int| 0 <= j < n && j < raw.len() - 3 implies !#[trigger] p(j) by {
        if p(j) {
            let k = crate::text::lemma_ascii_byte(t, j);
            let from = t.skip(k);
            assert(encode_utf8(from) =~= raw.skip(j));
            crate::text::lemma_ascii_prefix(from, 2);
            assert(from[0] == '\r' && from[1] == '\n');
            assert(has_line_break(t, k));
            if k >= front.len() {
                assert(t.take(k) =~= front + rest.take(k - front.len()));
                crate::text::lemma_encode_concat(front, rest.take(k - front.len()));
            }
        }
    }
    assert forall|j: int| 0 <= j < tail.len() - 3 implies q(j) == #[trigger] p(n + j) by {}
    if let Some(i) = headers_end(raw) {
        assert(q(i - n));
    }
    if let Some(i) = headers_end(tail) {
        assert(p(n + i));
        assert(raw.skip(n + i + 4) =~= tail.skip(i + 4));
    }
}

proof fn lemma_path_in_front_of_query(path: Seq<char>, after: Seq<char>)
    requires
        !path.contains(' '),
        !path.contains('?'),
    ensures
        path_of(path + seq!['?'] + after) == path,
{
    let t = path + seq!['?'] + after;
    crate::text::lemma_index_of_char(t, ' ');
    crate::text::lemma_index_of_char(path, '?');
    assert(forall|i: int| 0 <= i < path.len() ==> t[i] == path[i]);
    assert(t[path.len() as int] == '?');
    if let Some(i) = crate::text::index_of_char(t, ' ') {
        let from = t.subrange(path.len() as int + 1, i);
        assert(t.take(i) =~= path + seq!['?'] + from);
        lemma_up_to_char(path, '?', from);
    } else {
        lemma_up_to_char(path, '?', after);
    }
}

/// The method and the path on a request line, where it has a space.
spec fn line_parts(line: Seq<char>) -> Option<(Method, Seq<char>)> {
    match crate::text::index_of_char(line, ' ') {
        Some(space) => Some((method_of(line.take(space)), path_of(line.skip(space + 1)))),
        None => None,
    }
}

proof fn lemma_line_ignores_query(
    method: Seq<char>,
    path: Seq<char>,
    query: Seq<char>,
    rest: Seq<char>,
)
    requires
        !path.contains(' '),
        !path.contains('?'),
        rest.len() == 0 || rest[0] == ' ' || rest[0] == '?',
    ensures
        line_parts(method + seq![' '] + path + seq!['?'] + query + rest) == line_parts(
            method + seq![' '] + path + rest,
        ),
{
    let with = path + seq!['?'] + query + rest;
    let without = path + rest;
    let a = method + seq![' '] + with;
    let b = method + seq![' '] + without;
    assert(a =~= method + seq![' '] + path + seq!['?'] + query + rest);
    assert(b =~= method + seq![' '] + path + rest);
    lemma_up_to_char(method, ' ', with);
    lemma_up_to_char(method, ' ', without);
    crate::text::lemma_index_of_char(method, ' ');
    if let Some(i) = crate::text::index_of_char(method, ' ') {
        let second = method.skip(i + 1);
        assert(a.take(i) =~= b.take(i));
        assert(a.skip(i + 1) =~= second + seq![' '] + with);
        assert(b.skip(i + 1) =~= second + seq![' '] + without);
        lemma_up_to_char(second, ' ', with);
        lemma_up_to_char(second, ' ', without);
    } else {
        let n = method.len() as int;
        assert(a.take(n) =~= method && b.take(n) =~= method);
        assert(a.skip(n + 1) =~= with);
        assert(b.skip(n + 1) =~= without);
        assert(with =~= path + seq!['?'] + (query + rest));
        lemma_path_in_front_of_query(path, query + rest);
        crate::text::lemma_index_of_char(path, ' ');
        crate::text::lemma_index_of_char(path, '?');
        if rest.len() == 0 {
            assert(without =~= path);
        } else {
            let tail = rest.drop_first();
            assert(without =~= path + seq![rest[0]] + tail);
            if rest[0] == '?' {
                lemma_path_in_front_of_query(path, tail);
            } else {
                lemma_up_to_char(path, ' ', tail);
            }
        }
    }
}

/// A query string does not matter: a request with it is the same as without it, body
/// included, whatever follows the target.
pub proof fn lemma_query_is_ignored(
    method: Seq<char>,
    path: Seq<char>,
    query: Seq<char>,
    rest: Seq<char>,
)
    requires
        is_one_line(method),
        is_one_line(path),
        is_one_line(query),
        !path.contains(' '),
        !path.contains('?'),
        ends_path(rest),
    ensures
        request_of(encode_utf8(method + seq![' '] + path + seq!['?'] + query + rest))
            == request_of(encode_utf8(method + seq![' '] + path + rest)),
{
    let with = method + seq![' '] + path + seq!['?'] + query;
    let without = method + seq![' '] + path;
    lemma_one_line_breaks_behind(method, path, query, rest);
    lemma_line_end_behind(with, rest);
    lemma_line_end_behind(without, rest);
    lemma_body_behind(with, rest);
    lemma_body_behind(without, rest);
    encode_utf8_valid_utf8(with + rest);
    encode_utf8_decode_utf8(with + rest);
    encode_utf8_valid_utf8(without + rest);
    encode_utf8_decode_utf8(without + rest);
    let q = crate::text::breaks_line(rest);
    crate::text::lemma_first_index(q, 0, rest.len() - 1);
    if let Some(end) = crate::text::line_end(rest) {
        let line = rest.take(end);
        assert((with + rest).take(with.len() + end) =~= with + line);
        assert((without + rest).take(without.len() + end) =~= without + line);
        if rest[0] == '\r' {
            assert(q(0));
        }
        lemma_line_ignores_query(method, path, query, line);
    }
}

proof fn lemma_one_line_breaks_behind(
    method: Seq<char>,
    path: Seq<char>,
    query: Seq<char>,
    rest: Seq<char>,
)
    requires
        is_one_line(method),
        is_one_line(path),
        is_one_line(query),
        ends_path(rest),
    ensures
        breaks_behind(method + seq![' '] + path + seq!['?'] + query, rest),
        breaks_behind(method + seq![' '] + path, rest),
{
    let with = method + seq![' '] + path + seq!['?'] + query;
    let without = method + seq![' '] + path;
    let m = method.len() as int;
    let p = m + 1 + path.len();
    assert forall|i: int|
        0 <= i < with.len() && i < with.len() + rest.len() - 1 implies !#[trigger] has_line_break(
        with + rest,
        i,
    ) by {
        if i < m - 1 {
            assert(!has_line_break(method, i));
        } else if m + 1 <= i < p - 1 {
            assert(!has_line_break(path, i - m - 1));
        } else if p + 1 <= i < with.len() - 1 {
            assert(!has_line_break(query, i - p - 1));
        }
    }
    assert forall|i: int|
        0 <= i < without.len() && i < without.len() + rest.len()
            - 1 implies !#[trigger] has_line_break(without + rest, i) by {
        if i < m - 1 {
            assert(!has_line_break(method, i));
        } else if m + 1 <= i < p - 1 {
            assert(!has_line_break(path, i - m - 1));
        }
    }
}

/// No command that comes from outside moves a servo beyond [`MAX_SERVO_ANGLE`].
pub proof fn lemma_servo_angles_are_limited(body: Seq<u8>)
    ensures
        body_command(body) matches Some(Command::MoveServo(_, angle)) ==> angle <= MAX_SERVO_ANGLE,
{
}

/// The menu belongs to the button: no command that comes from outside touches it.
pub proof fn lemma_menu_is_local(body: Seq<u8>)
    ensures
        body_command(body) matches Some(command) ==> !(command is MenuNextItem) && !(
        command is MenuSelect),
{
}

/// Command requests, and no others, are accepted or refused as bad.
pub proof fn lemma_only_command_posts_are_judged(request: RequestView)
    ensures
        posts_command(request.method, request.path) <==> (request_route(
            request,
        ) is CommandAccepted || request_route(request) is BadRequest),
{
}

/// What is put on the bus is the command in the body, and nothing is where the
/// body holds none.
pub proof fn lemma_accepted_command_is_posted(request: RequestView)
    ensures
        accepted_command(request_route(request)) == (if posts_command(
            request.method,
            request.path,
        ) {
            body_command(request.body)
        } else {
            None
        }),
{
}

/// A method other than GET and POST is never served.
pub proof fn lemma_other_methods_are_not_found(request: RequestView)
    requires
        request.method is Other,
    ensures
        request_route(request) is NotFound,
{
}

/// The body of a request that is no command request does not matter.
pub proof fn lemma_body_matters_for_commands_only(request: RequestView, body: Seq<u8>)
    requires
        !posts_command(request.method, request.path),
    ensures
        request_route(RequestView { body, ..request }) == request_route(request),
{
}

/// Whether a head closes with a blank line.
pub open spec fn is_terminated(head: Seq<char>) -> bool {
    let n = head.len();
    n >= 4 && head[n - 4] == '\r' && head[n - 3] == '\n' && head[n - 2] == '\r' && head[n - 1] == '\n'
}

/// Every answer, the refusal of a client included, starts with a head that a blank
/// line closes.
pub proof fn lemma_heads_are_terminated(route: RouteResult)
    ensures
        is_terminated(head_of(route)),
        is_terminated(RESPONSE_503@),
{
    reveal_strlit(
        "HTTP/1.1 200 OK\r\nContent-Type: text/html; charset=utf-8\r\nConnection: close\r\n\r\n",
    );
    reveal_strlit("HTTP/1.1 200 OK\r\nContent-Type: application/json\r\nConnection: close\r\n\r\n");
    reveal_strlit("HTTP/1.1 400 Bad Request\r\nConnection: close\r\n\r\n");
    reveal_strlit("HTTP/1.1 404 Not Found\r\nConnection: close\r\n\r\n");
    reveal_strlit(
        "HTTP/1.1 503 Service Unavailable\r\nRetry-After: 1\r\nConnection: close\r\n\r\n",
    );
    reveal_strlit(
        "HTTP/1.1 200 OK\r\nContent-Type: multipart/x-mixed-replace; boundary=frame\r\nConnection: keep-alive\r\n\r\n",
    );
    reveal_strlit(
        "HTTP/1.1 200 OK\r\nContent-Type: audio/l16; rate=16000; channels=1\r\nConnection: keep-alive\r\n\r\n",
    );
}

/// The view of a request is its parts as they are.
pub proof fn lemma_request_view(request: RequestParts<'_>)
    ensures
        request@.method == request.method,
        request@.path == request.path@,
        request@.body == request.body@,
{
}

/// The view of an API command is the command with its text.
pub proof fn lemma_api_view(api: ApiCommand)
    ensures
        api matches ApiCommand::SetFaceExpression(name) ==> api@ == ApiView::SetFaceExpression(
            crate::json::text_of(name),
        ),
        api matches ApiCommand::MoveServo((id, angle)) ==> api@ == ApiView::MoveServo(id, angle),
        api matches ApiCommand::StreamAudio(on) ==> api@ == ApiView::StreamAudio(on),
        api matches ApiCommand::StreamVideo(on) ==> api@ == ApiView::StreamVideo(on),
{
}

/// A client is admitted exactly while less than two are connected, one client takes
/// one slot, and one that leaves gives one back.
pub proof fn lemma_slots_are_counted_one_by_one(active: usize)
    ensures
        count_acquired(active) is Some <==> active < 2,
        count_acquired(active) matches Some(more) ==> more == active + 1,
        active > 0 ==> count_released(active) == active - 1,
{
}

/// GET and POST are known by exactly these names, and by nothing close to them.
pub proof fn lemma_methods_are_known_by_name(token: Seq<char>)
    ensures
        method_of(token) is Get <==> token == "GET"@,
        method_of(token) is Post <==> token == "POST"@,
        method_of(token) is Other <==> token != "GET"@ && token != "POST"@,
{
    reveal_strlit("GET");
    reveal_strlit("POST");
    assert("GET"@[0] == 'G' && "POST"@[0] == 'P');
}

/// The path is the front of what follows the method, up to the first space or question
/// mark, or all of it.
pub proof fn lemma_path_is_the_front(rest: Seq<char>)
    ensures
        ({
            let path = path_of(rest);
            &&& path.len() <= rest.len()
            &&& path == rest.take(path.len() as int)
            &&& !path.contains(' ')
            &&& !path.contains('?')
            &&& path.len() < rest.len() ==> rest[path.len() as int] == ' ' || rest[path.len() as int]
                == '?'
        }),
{
    let target = crate::text::until_char(rest, ' ');
    crate::text::lemma_until_char(rest, ' ');
    crate::text::lemma_until_char(target, '?');
    let path = path_of(rest);
    assert(path =~= rest.take(path.len() as int));
    if path.contains(' ') {
        let i = choose|i: int| 0 <= i < path.len() && path[i] == ' ';
        assert(target[i] == ' ');
    }
}

/// Whatever its version and headers, a request whose first line starts with a method
/// and a space is understood by that method, by the front of what follows, and by
/// what stands behind the blank line.
pub proof fn lemma_first_line_decides(method: Seq<char>, after: Seq<char>, behind: Seq<char>)
    requires
        !method.contains(' '),
        is_one_line(method + seq![' '] + after),
    ensures
        ({
            let text = method + seq![' '] + after + seq!['\r', '\n'] + behind;
            request_of(encode_utf8(text)) == Some(
                RequestView {
                    method: method_of(method),
                    path: path_of(after),
                    body: body_of(encode_utf8(text)),
                },
            )
        }),
{
    let line = method + seq![' '] + after;
    let text = line + seq!['\r', '\n'] + behind;
    lemma_line_of(line, behind);
    encode_utf8_valid_utf8(text);
    encode_utf8_decode_utf8(text);
    lemma_up_to_char(method, ' ', after);
    crate::text::lemma_index_of_char(method, ' ');
    assert(line.take(method.len() as int) =~= method);
    assert(line.skip(method.len() as int + 1) =~= after);
}

/// A first line without a space is no request.
pub proof fn lemma_no_request_without_space(line: Seq<char>, behind: Seq<char>)
    requires
        !line.contains(' '),
        is_one_line(line),
    ensures
        request_of(encode_utf8(line + seq!['\r', '\n'] + behind)) is None,
{
    let text = line + seq!['\r', '\n'] + behind;
    lemma_line_of(line, behind);
    encode_utf8_valid_utf8(text);
    encode_utf8_decode_utf8(text);
    crate::text::lemma_index_of_char(line, ' ');
}

/// Text without a line break is no request, and neither are bytes that are no text.
pub proof fn lemma_no_request_without_line(text: Seq<char>, raw: Seq<u8>)
    requires
        is_one_line(text),
        !valid_utf8(raw),
    ensures
        request_of(encode_utf8(text)) is None,
        request_of(raw) is None,
{
    encode_utf8_valid_utf8(text);
    encode_utf8_decode_utf8(text);
    crate::text::lemma_first_index(crate::text::breaks_line(text), 0, text.len() - 1);
    if let Some(i) = crate::text::line_end(text) {
        assert(has_line_break(text, i));
    }
}

proof fn lemma_line_of(line: Seq<char>, behind: Seq<char>)
    requires
        is_one_line(line),
    ensures
        ({
            let text = line + seq!['\r', '\n'] + behind;
            &&& crate::text::line_end(text) == Some(line.len() as int)
            &&& text.take(line.len() as int) == line
        }),
{
    let text = line + seq!['\r', '\n'] + behind;
    let rest = seq!['\r', '\n'] + behind;
    assert(text =~= line + rest);
    assert forall|i: int| 0 <= i < line.len() implies !#[trigger] has_line_break(line + rest, i) by {
        if i < line.len() - 1 {
            assert(!has_line_break(line, i));
        }
    }
    lemma_line_end_behind(line, rest);
    let q = crate::text::breaks_line(rest);
    crate::text::lemma_first_index(q, 0, rest.len() - 1);
    assert(q(0));
    assert(text.take(line.len() as int) =~= line);
}

/// Each of the four names means its own mood, and no other name means any.
pub proof fn lemma_moods_are_known_by_name(name: Seq<char>)
    ensures
        name == "Happy"@ <==> mood_named(name) == Some(FaceMood::Happy),
        name == "Sad"@ <==> mood_named(name) == Some(FaceMood::Sad),
        name == "Neutral"@ <==> mood_named(name) == Some(FaceMood::Neutral),
        name == "Surprised"@ <==> mood_named(name) == Some(FaceMood::Excited),
        mood_named(name) is Some ==> name == "Happy"@ || name == "Sad"@ || name == "Neutral"@
            || name == "Surprised"@,
{
    reveal_strlit("Happy");
    reveal_strlit("Sad");
    reveal_strlit("Neutral");
    reveal_strlit("Surprised");
    assert("Happy"@[0] == 'H' && "Sad"@[1] == 'a' && "Neutral"@[0] == 'N' && "Surprised"@[1] == 'u');
}

/// A servo is sent to the angle asked for, and nowhere where that is beyond the range.
pub proof fn lemma_servo_goes_where_asked(id: u8, angle: u16)
    ensures
        angle <= 180 ==> command_of(ApiView::MoveServo(id, angle)) == Some(
            Command::MoveServo(id, angle),
        ),
        angle > 180 ==> command_of(ApiView::MoveServo(id, angle)) is None,
{
}

/// A command that comes of an API command is of its kind and carries its values: one
/// can tell from it what was asked for.
pub proof fn lemma_commands_carry_what_was_asked(api: ApiView)
    ensures
        command_of(api) matches Some(Command::MoveServo(id, angle)) ==> api == ApiView::MoveServo(
            id,
            angle,
        ),
        command_of(api) matches Some(Command::StreamAudio(on)) ==> api == ApiView::StreamAudio(on),
        command_of(api) matches Some(Command::StreamVideo(on)) ==> api == ApiView::StreamVideo(on),
        command_of(api) matches Some(Command::SetFaceExpression(mood)) ==> (
        api matches ApiView::SetFaceExpression(name) && mood_named(name) == Some(mood)),
        !(command_of(api) matches Some(command) && (command is MenuNextItem
            || command is MenuSelect)),
{
}

/// Streaming commands are always acceptable, a face command exactly if its name is
/// known, and a servo command exactly if its angle is within the range.
pub proof fn lemma_acceptable_commands(api: ApiView)
    ensures
        command_of(api) is Some <==> match api {
            ApiView::SetFaceExpression(name) => name == "Happy"@ || name == "Sad"@ || name
                == "Neutral"@ || name == "Surprised"@,
            ApiView::MoveServo(_, angle) => angle <= 180,
            ApiView::StreamAudio(_) => true,
            ApiView::StreamVideo(_) => true,
        },
{
    if let ApiView::SetFaceExpression(name) = api {
        lemma_moods_are_known_by_name(name);
    }
}

proof fn lemma_keys_differ()
    ensures
        "StreamAudio"@ != "StreamVideo"@,
{
    reveal_strlit("StreamAudio");
    reveal_strlit("StreamVideo");
    assert("StreamAudio"@[6] == 'A' && "StreamVideo"@[6] == 'V');
}

/// An API command is read from the member of its own key and kind of value, unchanged,
/// and only where that member is alone.
pub proof fn lemma_members_are_read_by_key(
    text: Option<(Seq<char>, Seq<char>)>,
    pair: Option<(Seq<char>, (u8, u16))>,
    flag: Option<(Seq<char>, bool)>,
    single: bool,
)
    ensures
        ({
            let api = api_of(text, pair, flag, single);
            let face = text matches Some((key, _)) && key == "SetFaceExpression"@;
            let servo = pair matches Some((key, _)) && key == "MoveServo"@;
            let audio = flag matches Some((key, _)) && key == "StreamAudio"@;
            let video = flag matches Some((key, _)) && key == "StreamVideo"@;
            &&& api is Some ==> single
            &&& api matches Some(ApiView::SetFaceExpression(name)) ==> text == Some(
                ("SetFaceExpression"@, name),
            )
            &&& api matches Some(ApiView::MoveServo(id, angle)) ==> pair == Some(
                ("MoveServo"@, (id, angle)),
            )
            &&& api matches Some(ApiView::StreamAudio(on)) ==> flag == Some(("StreamAudio"@, on))
            &&& api matches Some(ApiView::StreamVideo(on)) ==> flag == Some(("StreamVideo"@, on))
            &&& single && face ==> api is Some && api->0 is SetFaceExpression
            &&& single && !face && servo ==> api is Some && api->0 is MoveServo
            &&& single && !face && !servo && audio ==> api is Some && api->0 is StreamAudio
            &&& single && !face && !servo && video ==> api is Some && api->0 is StreamVideo
        }),
{
    lemma_keys_differ();
}

/// From the bytes to the command: a body whose only member is a servo, audio or video
/// member gives that command with those values, and a face member the mood it names.
pub proof fn lemma_body_gives_its_command(body: Seq<u8>)
    requires
        crate::json::json_single(body),
    ensures
        crate::json::json_text(body) matches Some((key, name)) ==> (key == "SetFaceExpression"@
            ==> body_command(body) == (match mood_named(name) {
            Some(mood) => Some(Command::SetFaceExpression(mood)),
            None => None,
        })),
        crate::json::json_text(body) is None ==> (crate::json::json_pair(body) matches Some(
            (key, (id, angle)),
        ) ==> (key == "MoveServo"@ ==> body_command(body) == (if angle <= 180 {
            Some(Command::MoveServo(id, angle))
        } else {
            None
        }))),
        crate::json::json_text(body) is None && crate::json::json_pair(body) is None ==> (
        crate::json::json_flag(body) matches Some((key, on)) ==> (key == "StreamAudio"@
            ==> body_command(body) == Some(Command::StreamAudio(on))) && (key == "StreamVideo"@
            ==> body_command(body) == Some(Command::StreamVideo(on)))),
{
    lemma_keys_differ();
}

/// Every command that a body gives stands in it, as its only member, with that kind
/// and those values.
pub proof fn lemma_command_stands_in_body(body: Seq<u8>)
    ensures
        body_command(body) is Some ==> crate::json::json_single(body),
        body_command(body) matches Some(Command::MoveServo(id, angle)) ==> crate::json::json_pair(
            body,
        ) == Some(("MoveServo"@, (id, angle))) && angle <= 180,
        body_command(body) matches Some(Command::StreamAudio(on)) ==> crate::json::json_flag(body)
            == Some(("StreamAudio"@, on)),
        body_command(body) matches Some(Command::StreamVideo(on)) ==> crate::json::json_flag(body)
            == Some(("StreamVideo"@, on)),
        body_command(body) matches Some(Command::SetFaceExpression(mood)) ==> (
        crate::json::json_text(body) matches Some((key, name)) && key == "SetFaceExpression"@
            && mood_named(name) == Some(mood)),
{
}

proof fn lemma_paths_differ()
    ensures
        "/api/stream/video"@ != "/api/stream/audio"@,
        "/"@ != "/api/stream/video"@,
        "/"@ != "/api/stream/audio"@,
        "/index.html"@ != "/api/stream/video"@,
        "/index.html"@ != "/api/stream/audio"@,
{
    reveal_strlit("/");
    reveal_strlit("/index.html");
    reveal_strlit("/api/stream/video");
    reveal_strlit("/api/stream/audio");
    assert("/api/stream/video"@[12] == 'v' && "/api/stream/audio"@[12] == 'a');
    assert("/"@.len() == 1 && "/index.html"@.len() == 11);
    assert("/api/stream/video"@.len() == 17 && "/api/stream/audio"@.len() == 17);
}

/// Each route is reached by its own method and paths, and by nothing else.
pub proof fn lemma_routes_by_method_and_path(
    method: Method,
    path: Seq<char>,
    command: Option<Command>,
)
    ensures
        ({
            let route = route_of(method, path, command);
            &&& route is ServeIndex <==> method is Get && (path == "/"@ || path == "/index.html"@)
            &&& route is ServeVideoStream <==> method is Get && path == "/api/stream/video"@
            &&& route is ServeAudioStream <==> method is Get && path == "/api/stream/audio"@
            &&& route is BadRequest <==> method is Post && path == "/api/command"@
                && command is None
            &&& route is CommandAccepted <==> method is Post && path == "/api/command"@
                && command is Some
            &&& route matches RouteResult::CommandAccepted(accepted) ==> command == Some(accepted)
        }),
{
    lemma_paths_differ();
}

/// A request is routed by its method, its path and the command in its body.
pub proof fn lemma_request_is_routed_by_its_parts(request: RequestView)
    ensures
        ({
            let route = request_route(request);
            let post = request.method is Post && request.path == "/api/command"@;
            let command = body_command(request.body);
            &&& route is ServeIndex <==> request.method is Get && (request.path == "/"@
                || request.path == "/index.html"@)
            &&& route is ServeVideoStream <==> request.method is Get && request.path
                == "/api/stream/video"@
            &&& route is ServeAudioStream <==> request.method is Get && request.path
                == "/api/stream/audio"@
            &&& route is BadRequest <==> post && command is None
            &&& post ==> (command matches Some(c) ==> route == RouteResult::CommandAccepted(c))
            &&& route is CommandAccepted ==> post && command is Some
        }),
{
    lemma_paths_differ();
}

/// Every route is answered with its own head: the page, the streams and every accepted
/// command, whichever it is, with `200 OK` and their kind of content, a bad request
/// with `400`, what is not found with `404`, and a client beyond the limit with `503`.
pub proof fn lemma_heads_say_what_happened(route: RouteResult)
    ensures
        route is ServeIndex ==> head_of(route)
            == "HTTP/1.1 200 OK\r\nContent-Type: text/html; charset=utf-8\r\nConnection: close\r\n\r\n"@,
        route is CommandAccepted ==> head_of(route)
            == "HTTP/1.1 200 OK\r\nContent-Type: application/json\r\nConnection: close\r\n\r\n"@,
        route is ServeVideoStream ==> head_of(route)
            == "HTTP/1.1 200 OK\r\nContent-Type: multipart/x-mixed-replace; boundary=frame\r\nConnection: keep-alive\r\n\r\n"@,
        route is ServeAudioStream ==> head_of(route)
            == "HTTP/1.1 200 OK\r\nContent-Type: audio/l16; rate=16000; channels=1\r\nConnection: keep-alive\r\n\r\n"@,
        route is BadRequest ==> head_of(route)
            == "HTTP/1.1 400 Bad Request\r\nConnection: close\r\n\r\n"@,
        route is NotFound ==> head_of(route)
            == "HTTP/1.1 404 Not Found\r\nConnection: close\r\n\r\n"@,
        RESPONSE_503@
            == "HTTP/1.1 503 Service Unavailable\r\nRetry-After: 1\r\nConnection: close\r\n\r\n"@,
{
}

/// A client can tell from the head what became of its request: each head belongs to
/// one kind of route, and none to a client that was turned away.
pub proof fn lemma_heads_tell_routes_apart(route: RouteResult)
    ensures
        head_of(route) == RESPONSE_200_HTML@ <==> route is ServeIndex,
        head_of(route) == RESPONSE_200_JSON@ <==> route is CommandAccepted,
        head_of(route) == RESPONSE_200_MJPEG@ <==> route is ServeVideoStream,
        head_of(route) == RESPONSE_200_AUDIO@ <==> route is ServeAudioStream,
        head_of(route) == RESPONSE_400@ <==> route is BadRequest,
        head_of(route) == RESPONSE_404@ <==> route is NotFound,
        head_of(route) != RESPONSE_503@,
{
    reveal_strlit(
        "HTTP/1.1 200 OK\r\nContent-Type: text/html; charset=utf-8\r\nConnection: close\r\n\r\n",
    );
    reveal_strlit("HTTP/1.1 200 OK\r\nContent-Type: application/json\r\nConnection: close\r\n\r\n");
    reveal_strlit("HTTP/1.1 400 Bad Request\r\nConnection: close\r\n\r\n");
    reveal_strlit("HTTP/1.1 404 Not Found\r\nConnection: close\r\n\r\n");
    reveal_strlit(
        "HTTP/1.1 503 Service Unavailable\r\nRetry-After: 1\r\nConnection: close\r\n\r\n",
    );
    reveal_strlit(
        "HTTP/1.1 200 OK\r\nContent-Type: multipart/x-mixed-replace; boundary=frame\r\nConnection: keep-alive\r\n\r\n",
    );
    reveal_strlit(
        "HTTP/1.1 200 OK\r\nContent-Type: audio/l16; rate=16000; channels=1\r\nConnection: keep-alive\r\n\r\n",
    );
    assert(RESPONSE_200_HTML@[9] == '2' && RESPONSE_200_HTML@[31] == 't');
    assert(RESPONSE_200_JSON@[9] == '2' && RESPONSE_200_JSON@[31] == 'a' && RESPONSE_200_JSON@[32]
        == 'p');
    assert(RESPONSE_200_MJPEG@[9] == '2' && RESPONSE_200_MJPEG@[31] == 'm');
    assert(RESPONSE_200_AUDIO@[9] == '2' && RESPONSE_200_AUDIO@[31] == 'a' && RESPONSE_200_AUDIO@[32]
        == 'u');
    assert(RESPONSE_400@[9] == '4' && RESPONSE_400@[11] == '0');
    assert(RESPONSE_404@[9] == '4' && RESPONSE_404@[11] == '4');
    assert(RESPONSE_503@[9] == '5');
}

/// What is answered agrees with what is done: a command goes on the bus exactly if the
/// client is told that it was accepted, and it is the accepted one; and what follows a
/// head is what that head announces.
pub proof fn lemma_answers_agree_with_deeds(route: RouteResult)
    ensures
        accepted_command(route) is Some <==> head_of(route) == RESPONSE_200_JSON@,
        accepted_command(route) matches Some(command) ==> route == RouteResult::CommandAccepted(
            command,
        ),
        response_body_of(route) is EmptyObject <==> head_of(route) == RESPONSE_200_JSON@,
        response_body_of(route) is IndexPage <==> head_of(route) == RESPONSE_200_HTML@,
        response_body_of(route) is VideoFrames <==> head_of(route) == RESPONSE_200_MJPEG@,
        response_body_of(route) is AudioFrames <==> head_of(route) == RESPONSE_200_AUDIO@,
        response_body_of(route) is Empty <==> head_of(route) == RESPONSE_400@ || head_of(route)
            == RESPONSE_404@,
{
    lemma_heads_tell_routes_apart(route);
}

/// Two accepted commands are answered alike.
pub proof fn lemma_accepted_commands_are_answered_alike(first: Command, second: Command)
    ensures
        head_of(RouteResult::CommandAccepted(first)) == head_of(
            RouteResult::CommandAccepted(second),
        ),
        response_body_of(RouteResult::CommandAccepted(first)) == response_body_of(
            RouteResult::CommandAccepted(second),
        ),
{
}

/// The head of a frame names the boundary of the stream, the kind of its content and
/// its length, and the length has no leading zeros.
pub proof fn lemma_part_head_announces_the_frame(frame_len: nat)
    ensures
        part_head_text(frame_len)
            == "--frame\r\nContent-Type: image/jpeg\r\nContent-Length: "@ + decimal(frame_len)
            + "\r\n\r\n"@,
        decimal(frame_len).len() > 0,
        frame_len > 0 ==> decimal(frame_len)[0] != '0',
        frame_len == 0 ==> decimal(frame_len) == seq!['0'],
    decreases frame_len,
{
    if frame_len >= 10 {
        lemma_part_head_announces_the_frame(frame_len / 10);
    }
}

/// A stream sends exactly when something is ready. Video then goes on at once and
/// otherwise looks again after 10 ms; audio looks again after 32 ms either way.
pub proof fn lemma_streams_send_what_is_ready(len: nat)
    ensures
        video_step_of(len) == StreamStep::SendFrame <==> len > 0,
        video_step_of(len) == StreamStep::Wait(10) <==> len == 0,
        audio_step_of(len) == StreamStep::SendFrameThenWait(32) <==> len > 0,
        audio_step_of(len) == StreamStep::Wait(32) <==> len == 0,
{
}

} // verus!
