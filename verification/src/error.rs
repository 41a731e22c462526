//! Domain-specific error types for terminal emulation, Wayland protocols, and rendering.

use crate::text::{decimal, decimal_chars, joined, string_of};
use vstd::prelude::*;
use vstd::std_specs::convert::FromSpecImpl;

verus! {

/// The kinds of input and output errors that are told apart.
#[derive(Debug, Clone, Copy, PartialEq, Eq, Structural)]
pub enum ErrorKind {
    NotFound,
    PermissionDenied,
    ConnectionRefused,
    NotConnected,
    InvalidInput,
    InvalidData,
    Unsupported,
    Other,
}

/// An input or output error: a number of the system, or a kind with a message.
#[derive(Debug, Clone, PartialEq, Eq)]
pub enum IoError {
    Os(i32),
    Message { kind: ErrorKind, text: String },
}

/// What an input or output error holds.
#[verifier::ext_equal]
pub enum IoModel {
    Os(i32),
    Message(ErrorKind, Seq<char>),
}

impl View for IoError {
    type V = IoModel;

    open spec fn view(&self) -> IoModel {
        match *self {
            IoError::Os(code) => IoModel::Os(code),
            IoError::Message { kind, text } => IoModel::Message(kind, text@),
        }
    }
}

/// Whether a text describes an input or output error: its message, or what the system says of its
/// number, which may be anything.
pub open spec fn describes(e: IoModel, t: Seq<char>) -> bool {
    match e {
        IoModel::Os(_) => true,
        IoModel::Message(_, text) => t == text,
    }
}

/// The text that the system has for an error number, by `std::io::Error::from_raw_os_error`. What
/// it says depends on the system, so nothing is claimed of it.
#[verifier::external_body]
fn system_text(code: i32) -> (r: String) {
    format!("{}", std::io::Error::from_raw_os_error(code))
}

impl IoError {
    /// An error with a kind and a message.
    pub fn new(kind: ErrorKind, text: String) -> (r: Self)
        ensures
            r@ == IoModel::Message(kind, text@),
    {
        IoError::Message { kind, text }
    }

    pub fn to_string(&self) -> (r: String)
        ensures
            describes(self@, r@),
    {
        match self {
            IoError::Os(code) => system_text(*code),
            IoError::Message { text, .. } => text.clone(),
        }
    }

    /// The number of the system, where the error has one.
    pub fn raw_os_error(&self) -> (r: Option<i32>)
        ensures
            r == (match self@ {
                IoModel::Os(code) => Some(code),
                _ => None,
            }),
    {
        match self {
            IoError::Os(code) => Some(*code),
            IoError::Message { .. } => None,
        }
    }
}

/// Decimal digits of a number, with a sign where it is negative.
pub open spec fn signed(n: int) -> Seq<char> {
    if n < 0 {
        seq!['-'] + decimal((-n) as nat)
    } else {
        decimal(n as nat)
    }
}

fn signed_text(n: i32) -> (r: String)
    ensures
        r@ == signed(n as int),
{
    let wide: i64 = n as i64;
    if wide < 0 {
        let mut chars: Vec<char> = vec!['-'];
        let mut digits: Vec<char> = decimal_chars((-wide) as u64);
        let ghost d = digits@;
        chars.append(&mut digits);
        assert(chars@ =~= seq!['-'] + d);
        string_of(chars.as_slice())
    } else {
        string_of(decimal_chars(wide as u64).as_slice())
    }
}

fn number_text(n: u32) -> (r: String)
    ensures
        r@ == decimal(n as nat),
{
    string_of(decimal_chars(n as u64).as_slice())
}

/// The text of a size: width and height in decimal digits.
pub open spec fn size_text(w: u32, h: u32) -> Seq<char> {
    decimal(w as nat) + "x"@ + decimal(h as nat)
}

fn size_string(w: u32, h: u32) -> (r: String)
    ensures
        r@ == size_text(w, h),
{
    let left: String = joined(number_text(w).as_str(), "x");
    joined(left.as_str(), number_text(h).as_str())
}

/// Errors originating from POSIX PTY allocation and sub-process lifecycle.
#[derive(Debug, Clone, PartialEq, Eq)]
pub enum PtyError {
    /// `openpty` system call failed.
    Openpty(i32),
    /// `fork` system call failed.
    Fork(i32),
    /// Setting window dimensions via `TIOCSWINSZ` failed.
    SetWindowSize(i32),
    /// Duplicating master file descriptor failed.
    CloneMaster(i32),
    /// Subprocess spawning or command execution failed.
    Spawn(String),
    /// Underlying I/O error.
    Io(IoError),
}

impl PtyError {
    /// Whether a text is what the error says.
    pub open spec fn says(self, t: Seq<char>) -> bool {
        match self {
            PtyError::Openpty(code) => t == "openpty failed with errno "@ + signed(code as int),
            PtyError::Fork(code) => t == "fork failed with errno "@ + signed(code as int),
            PtyError::SetWindowSize(code) => t == "TIOCSWINSZ ioctl failed with errno "@ + signed(code as int),
            PtyError::CloneMaster(code) => t == "dup master fd failed with errno "@ + signed(code as int),
            PtyError::Spawn(msg) => t == "failed to spawn process: "@ + msg@,
            PtyError::Io(err) => describes(err@, t),
        }
    }

    pub fn to_string(&self) -> (r: String)
        ensures
            self.says(r@),
    {
        match self {
            PtyError::Openpty(code) => joined("openpty failed with errno ", signed_text(*code).as_str()),
            PtyError::Fork(code) => joined("fork failed with errno ", signed_text(*code).as_str()),
            PtyError::SetWindowSize(code) => joined("TIOCSWINSZ ioctl failed with errno ", signed_text(*code).as_str()),
            PtyError::CloneMaster(code) => joined("dup master fd failed with errno ", signed_text(*code).as_str()),
            PtyError::Spawn(msg) => joined("failed to spawn process: ", msg.as_str()),
            PtyError::Io(err) => err.to_string(),
        }
    }

    /// The error behind this one.
    pub fn source(&self) -> (r: Option<&IoError>)
        ensures
            r == (match *self {
                PtyError::Io(err) => Some(&err),
                _ => None,
            }),
    {
        match self {
            PtyError::Io(err) => Some(err),
            _ => None,
        }
    }

    /// The error as one of input and output.
    pub open spec fn as_io(self) -> IoModel {
        match self {
            PtyError::Openpty(code) => IoModel::Os(code),
            PtyError::Fork(code) => IoModel::Os(code),
            PtyError::SetWindowSize(code) => IoModel::Os(code),
            PtyError::CloneMaster(code) => IoModel::Os(code),
            PtyError::Spawn(msg) => IoModel::Message(ErrorKind::Other, msg@),
            PtyError::Io(err) => err@,
        }
    }

    /// Turns the error into one of input and output.
    pub fn into_io(self) -> (r: IoError)
        ensures
            r@ == self.as_io(),
    {
        match self {
            PtyError::Openpty(code) => IoError::Os(code),
            PtyError::Fork(code) => IoError::Os(code),
            PtyError::SetWindowSize(code) => IoError::Os(code),
            PtyError::CloneMaster(code) => IoError::Os(code),
            PtyError::Spawn(msg) => IoError::new(ErrorKind::Other, msg),
            PtyError::Io(err) => err,
        }
    }
}

/// Errors originating from Wayland client connection and protocol state machines.
#[derive(Debug, Clone, PartialEq, Eq)]
pub enum WaylandError {
    /// Compositor connection failed.
    Connection(String),
    /// Required Wayland global interface not advertised by compositor.
    MissingGlobal(&'static str),
    /// Attempted action before window surface was created.
    WindowNotCreated,
    /// Attempted rendering or commit before initial configure event.
    UnconfiguredSurface,
    /// Invalid window lifecycle transition.
    InvalidStateTransition { from: &'static str, to: &'static str },
    /// Wayland queue dispatch error.
    Dispatch(String),
    /// Underlying I/O error.
    Io(IoError),
}

impl WaylandError {
    /// Whether a text is what the error says.
    pub open spec fn says(self, t: Seq<char>) -> bool {
        match self {
            WaylandError::Connection(msg) => t == "failed to connect to Wayland compositor: "@ + msg@,
            WaylandError::MissingGlobal(name) => t == "required Wayland global missing: "@ + name@,
            WaylandError::WindowNotCreated => t == "Wayland window surface not created"@,
            WaylandError::UnconfiguredSurface => t == "Wayland surface not configured by compositor yet"@,
            WaylandError::InvalidStateTransition { from, to } => t == "invalid window state transition from "@ + from@ + " to "@ + to@,
            WaylandError::Dispatch(msg) => t == "Wayland dispatch error: "@ + msg@,
            WaylandError::Io(err) => describes(err@, t),
        }
    }

    pub fn to_string(&self) -> (r: String)
        ensures
            self.says(r@),
    {
        match self {
            WaylandError::Connection(msg) => joined("failed to connect to Wayland compositor: ", msg.as_str()),
            WaylandError::MissingGlobal(name) => joined("required Wayland global missing: ", *name),
            WaylandError::WindowNotCreated => "Wayland window surface not created".to_owned(),
            WaylandError::UnconfiguredSurface => "Wayland surface not configured by compositor yet".to_owned(),
            WaylandError::InvalidStateTransition { from, to } => joined(joined(joined("invalid window state transition from ", *from).as_str(), " to ").as_str(), *to),
            WaylandError::Dispatch(msg) => joined("Wayland dispatch error: ", msg.as_str()),
            WaylandError::Io(err) => err.to_string(),
        }
    }

    /// The error behind this one.
    pub fn source(&self) -> (r: Option<&IoError>)
        ensures
            r == (match *self {
                WaylandError::Io(err) => Some(&err),
                _ => None,
            }),
    {
        match self {
            WaylandError::Io(err) => Some(err),
            _ => None,
        }
    }

    /// The error as one of input and output.
    pub open spec fn as_io(self) -> IoModel {
        match self {
            WaylandError::Connection(msg) => IoModel::Message(ErrorKind::ConnectionRefused, msg@),
            WaylandError::MissingGlobal(name) => IoModel::Message(ErrorKind::NotFound, "missing global: "@ + name@),
            WaylandError::WindowNotCreated => IoModel::Message(ErrorKind::NotConnected, "Wayland window surface not created"@),
            WaylandError::UnconfiguredSurface => IoModel::Message(ErrorKind::NotConnected, "Wayland surface not configured by compositor yet"@),
            WaylandError::InvalidStateTransition { from, to } => IoModel::Message(ErrorKind::InvalidInput, "invalid window state transition from "@ + from@ + " to "@ + to@),
            WaylandError::Dispatch(msg) => IoModel::Message(ErrorKind::Other, msg@),
            WaylandError::Io(err) => err@,
        }
    }

    /// Turns the error into one of input and output.
    pub fn into_io(self) -> (r: IoError)
        ensures
            r@ == self.as_io(),
    {
        match self {
            WaylandError::Connection(msg) => IoError::new(ErrorKind::ConnectionRefused, msg),
            WaylandError::MissingGlobal(name) => IoError::new(ErrorKind::NotFound, joined("missing global: ", name)),
            WaylandError::WindowNotCreated => IoError::new(ErrorKind::NotConnected, "Wayland window surface not created".to_owned()),
            WaylandError::UnconfiguredSurface => IoError::new(ErrorKind::NotConnected, "Wayland surface not configured by compositor yet".to_owned()),
            WaylandError::InvalidStateTransition { from, to } => IoError::new(ErrorKind::InvalidInput, joined(joined(joined("invalid window state transition from ", from).as_str(), " to ").as_str(), to)),
            WaylandError::Dispatch(msg) => IoError::new(ErrorKind::Other, msg),
            WaylandError::Io(err) => err,
        }
    }
}

/// Errors originating from EGL, OpenGL, or procedural rendering pipelines.
#[derive(Debug, Clone, PartialEq, Eq)]
pub enum RenderError {
    /// `wl_egl_window` creation failed.
    EglSurface(String),
    /// EGL display retrieval failed.
    EglDisplay(String),
    /// EGL initialization failed.
    EglInit(String),
    /// No matching EGL configuration supports required attributes.
    NoSupportedConfig,
    /// EGL context creation failed.
    ContextCreation(String),
    /// EGL window surface creation failed.
    SurfaceCreation(String),
    /// `eglMakeCurrent` failed.
    MakeCurrent(String),
    /// Vertex buffer object creation failed.
    BufferCreation(String),
    /// Texture object creation failed.
    TextureCreation(String),
    /// Shader object creation failed.
    ShaderCreation(String),
    /// Shader compilation failed.
    ShaderCompile { kind: &'static str, log: String },
    /// Program creation failed.
    ProgramCreation(String),
    /// Shader program linking failed.
    ProgramLink { log: String },
    /// Invalid window dimensions (e.g. non-positive or exceeding maximum integer range).
    InvalidDimensions(u32, u32),
    /// EGL window surface is not initialized.
    SurfaceNotInitialized,
    /// General OpenGL driver error.
    Gl(String),
}

impl RenderError {
    /// What the error says.
    pub open spec fn message(self) -> Seq<char> {
        match self {
            RenderError::EglSurface(msg) => "failed to create wl_egl_window: "@ + msg@,
            RenderError::EglDisplay(msg) => "eglGetDisplay failed: "@ + msg@,
            RenderError::EglInit(msg) => "eglInitialize failed: "@ + msg@,
            RenderError::NoSupportedConfig => "no EGL configuration supports OpenGL ES 2"@,
            RenderError::ContextCreation(msg) => "failed to create EGL context: "@ + msg@,
            RenderError::SurfaceCreation(msg) => "failed to create EGL surface: "@ + msg@,
            RenderError::MakeCurrent(msg) => "eglMakeCurrent failed: "@ + msg@,
            RenderError::BufferCreation(msg) => "failed to create GL buffer: "@ + msg@,
            RenderError::TextureCreation(msg) => "failed to create GL texture: "@ + msg@,
            RenderError::ShaderCreation(msg) => "failed to create GL shader: "@ + msg@,
            RenderError::ShaderCompile { kind, log } => kind@ + " shader compilation failed:\n"@ + log@,
            RenderError::ProgramCreation(msg) => "failed to create GL program: "@ + msg@,
            RenderError::ProgramLink { log } => "shader program link failed:\n"@ + log@,
            RenderError::InvalidDimensions(w, h) => "invalid render dimensions: "@ + size_text(w, h),
            RenderError::SurfaceNotInitialized => "EGL window surface is not initialized"@,
            RenderError::Gl(msg) => "OpenGL error: "@ + msg@,
        }
    }

    pub fn to_string(&self) -> (r: String)
        ensures
            r@ == self.message(),
    {
        match self {
            RenderError::EglSurface(msg) => joined("failed to create wl_egl_window: ", msg.as_str()),
            RenderError::EglDisplay(msg) => joined("eglGetDisplay failed: ", msg.as_str()),
            RenderError::EglInit(msg) => joined("eglInitialize failed: ", msg.as_str()),
            RenderError::NoSupportedConfig => "no EGL configuration supports OpenGL ES 2".to_owned(),
            RenderError::ContextCreation(msg) => joined("failed to create EGL context: ", msg.as_str()),
            RenderError::SurfaceCreation(msg) => joined("failed to create EGL surface: ", msg.as_str()),
            RenderError::MakeCurrent(msg) => joined("eglMakeCurrent failed: ", msg.as_str()),
            RenderError::BufferCreation(msg) => joined("failed to create GL buffer: ", msg.as_str()),
            RenderError::TextureCreation(msg) => joined("failed to create GL texture: ", msg.as_str()),
            RenderError::ShaderCreation(msg) => joined("failed to create GL shader: ", msg.as_str()),
            RenderError::ShaderCompile { kind, log } => joined(joined(*kind, " shader compilation failed:\n").as_str(), log.as_str()),
            RenderError::ProgramCreation(msg) => joined("failed to create GL program: ", msg.as_str()),
            RenderError::ProgramLink { log } => joined("shader program link failed:\n", log.as_str()),
            RenderError::InvalidDimensions(w, h) => joined("invalid render dimensions: ", size_string(*w, *h).as_str()),
            RenderError::SurfaceNotInitialized => "EGL window surface is not initialized".to_owned(),
            RenderError::Gl(msg) => joined("OpenGL error: ", msg.as_str()),
        }
    }

    /// The error as one of input and output.
    pub open spec fn as_io(self) -> IoModel {
        match self {
            RenderError::EglSurface(msg) => IoModel::Message(ErrorKind::Other, "failed to create wl_egl_window: "@ + msg@),
            RenderError::EglDisplay(msg) => IoModel::Message(ErrorKind::Other, "eglGetDisplay failed: "@ + msg@),
            RenderError::EglInit(msg) => IoModel::Message(ErrorKind::Other, "eglInitialize failed: "@ + msg@),
            RenderError::NoSupportedConfig => IoModel::Message(ErrorKind::Other, "no EGL configuration supports OpenGL ES 2"@),
            RenderError::ContextCreation(msg) => IoModel::Message(ErrorKind::Other, "failed to create EGL context: "@ + msg@),
            RenderError::SurfaceCreation(msg) => IoModel::Message(ErrorKind::Other, "failed to create EGL surface: "@ + msg@),
            RenderError::MakeCurrent(msg) => IoModel::Message(ErrorKind::Other, "eglMakeCurrent failed: "@ + msg@),
            RenderError::BufferCreation(msg) => IoModel::Message(ErrorKind::Other, "failed to create GL buffer: "@ + msg@),
            RenderError::TextureCreation(msg) => IoModel::Message(ErrorKind::Other, "failed to create GL texture: "@ + msg@),
            RenderError::ShaderCreation(msg) => IoModel::Message(ErrorKind::Other, "failed to create GL shader: "@ + msg@),
            RenderError::ShaderCompile { kind, log } => IoModel::Message(ErrorKind::Other, kind@ + " shader compilation failed:\n"@ + log@),
            RenderError::ProgramCreation(msg) => IoModel::Message(ErrorKind::Other, "failed to create GL program: "@ + msg@),
            RenderError::ProgramLink { log } => IoModel::Message(ErrorKind::Other, "shader program link failed:\n"@ + log@),
            RenderError::InvalidDimensions(w, h) => IoModel::Message(ErrorKind::InvalidInput, "invalid dimensions: "@ + size_text(w, h)),
            RenderError::SurfaceNotInitialized => IoModel::Message(ErrorKind::Other, "EGL window surface is not initialized"@),
            RenderError::Gl(msg) => IoModel::Message(ErrorKind::Other, "OpenGL error: "@ + msg@),
        }
    }

    /// Turns the error into one of input and output.
    pub fn into_io(self) -> (r: IoError)
        ensures
            r@ == self.as_io(),
    {
        match self {
            RenderError::EglSurface(msg) => IoError::new(ErrorKind::Other, joined("failed to create wl_egl_window: ", msg.as_str())),
            RenderError::EglDisplay(msg) => IoError::new(ErrorKind::Other, joined("eglGetDisplay failed: ", msg.as_str())),
            RenderError::EglInit(msg) => IoError::new(ErrorKind::Other, joined("eglInitialize failed: ", msg.as_str())),
            RenderError::NoSupportedConfig => IoError::new(ErrorKind::Other, "no EGL configuration supports OpenGL ES 2".to_owned()),
            RenderError::ContextCreation(msg) => IoError::new(ErrorKind::Other, joined("failed to create EGL context: ", msg.as_str())),
            RenderError::SurfaceCreation(msg) => IoError::new(ErrorKind::Other, joined("failed to create EGL surface: ", msg.as_str())),
            RenderError::MakeCurrent(msg) => IoError::new(ErrorKind::Other, joined("eglMakeCurrent failed: ", msg.as_str())),
            RenderError::BufferCreation(msg) => IoError::new(ErrorKind::Other, joined("failed to create GL buffer: ", msg.as_str())),
            RenderError::TextureCreation(msg) => IoError::new(ErrorKind::Other, joined("failed to create GL texture: ", msg.as_str())),
            RenderError::ShaderCreation(msg) => IoError::new(ErrorKind::Other, joined("failed to create GL shader: ", msg.as_str())),
            RenderError::ShaderCompile { kind, log } => IoError::new(ErrorKind::Other, joined(joined(kind, " shader compilation failed:\n").as_str(), log.as_str())),
            RenderError::ProgramCreation(msg) => IoError::new(ErrorKind::Other, joined("failed to create GL program: ", msg.as_str())),
            RenderError::ProgramLink { log } => IoError::new(ErrorKind::Other, joined("shader program link failed:\n", log.as_str())),
            RenderError::InvalidDimensions(w, h) => IoError::new(ErrorKind::InvalidInput, joined("invalid dimensions: ", size_string(w, h).as_str())),
            RenderError::SurfaceNotInitialized => IoError::new(ErrorKind::Other, "EGL window surface is not initialized".to_owned()),
            RenderError::Gl(msg) => IoError::new(ErrorKind::Other, joined("OpenGL error: ", msg.as_str())),
        }
    }
}

/// Errors originating from font loading, fontconfig querying, or rasterization.
#[derive(Debug, Clone, PartialEq, Eq)]
pub enum FontError {
    /// Non-positive or unsupported font size, by its decimal text.
    InvalidSize(String),
    /// Fontconfig library is not available on host system.
    FontconfigUnavailable,
    /// No usable monospace font found on host system.
    MonospaceNotFound,
    /// Font file parsing failed.
    FontParse(String),
    /// Font file not found at expected path.
    NotFound(String),
    /// Underlying I/O error.
    Io(IoError),
}

impl FontError {
    /// Whether a text is what the error says.
    pub open spec fn says(self, t: Seq<char>) -> bool {
        match self {
            FontError::InvalidSize(size) => t == "invalid font size: "@ + size@,
            FontError::FontconfigUnavailable => t == "fontconfig not available"@,
            FontError::MonospaceNotFound => t == "no monospace font found"@,
            FontError::FontParse(msg) => t == "failed to parse font: "@ + msg@,
            FontError::NotFound(path) => t == "font not found: "@ + path@,
            FontError::Io(err) => describes(err@, t),
        }
    }

    pub fn to_string(&self) -> (r: String)
        ensures
            self.says(r@),
    {
        match self {
            FontError::InvalidSize(size) => joined("invalid font size: ", size.as_str()),
            FontError::FontconfigUnavailable => "fontconfig not available".to_owned(),
            FontError::MonospaceNotFound => "no monospace font found".to_owned(),
            FontError::FontParse(msg) => joined("failed to parse font: ", msg.as_str()),
            FontError::NotFound(path) => joined("font not found: ", path.as_str()),
            FontError::Io(err) => err.to_string(),
        }
    }

    /// The error behind this one.
    pub fn source(&self) -> (r: Option<&IoError>)
        ensures
            r == (match *self {
                FontError::Io(err) => Some(&err),
                _ => None,
            }),
    {
        match self {
            FontError::Io(err) => Some(err),
            _ => None,
        }
    }

    /// The error as one of input and output.
    pub open spec fn as_io(self) -> IoModel {
        match self {
            FontError::InvalidSize(size) => IoModel::Message(ErrorKind::InvalidInput, "font size must be positive, got "@ + size@),
            FontError::FontconfigUnavailable => IoModel::Message(ErrorKind::NotFound, "fontconfig not available"@),
            FontError::MonospaceNotFound => IoModel::Message(ErrorKind::NotFound, "no monospace font found"@),
            FontError::FontParse(msg) => IoModel::Message(ErrorKind::InvalidData, msg@),
            FontError::NotFound(path) => IoModel::Message(ErrorKind::NotFound, "font not found: "@ + path@),
            FontError::Io(err) => err@,
        }
    }

    /// Turns the error into one of input and output.
    pub fn into_io(self) -> (r: IoError)
        ensures
            r@ == self.as_io(),
    {
        match self {
            FontError::InvalidSize(size) => IoError::new(ErrorKind::InvalidInput, joined("font size must be positive, got ", size.as_str())),
            FontError::FontconfigUnavailable => IoError::new(ErrorKind::NotFound, "fontconfig not available".to_owned()),
            FontError::MonospaceNotFound => IoError::new(ErrorKind::NotFound, "no monospace font found".to_owned()),
            FontError::FontParse(msg) => IoError::new(ErrorKind::InvalidData, msg),
            FontError::NotFound(path) => IoError::new(ErrorKind::NotFound, joined("font not found: ", path.as_str())),
            FontError::Io(err) => err,
        }
    }
}

/// Errors originating from configuration loading and inclusion recursion.
#[derive(Debug, Clone, PartialEq, Eq)]
pub enum ConfigError {
    /// A configuration file names itself, by the text of its path.
    CircularInclude(String),
    /// TOML parsing failed.
    Parse(String),
    /// Underlying I/O error when reading configuration file.
    Io(IoError),
}

impl ConfigError {
    /// Whether a text is what the error says.
    pub open spec fn says(self, t: Seq<char>) -> bool {
        match self {
            ConfigError::CircularInclude(path) => t == "circular include detected: "@ + path@,
            ConfigError::Parse(msg) => t == "failed to parse configuration: "@ + msg@,
            ConfigError::Io(err) => describes(err@, t),
        }
    }

    pub fn to_string(&self) -> (r: String)
        ensures
            self.says(r@),
    {
        match self {
            ConfigError::CircularInclude(path) => joined("circular include detected: ", path.as_str()),
            ConfigError::Parse(msg) => joined("failed to parse configuration: ", msg.as_str()),
            ConfigError::Io(err) => err.to_string(),
        }
    }

    /// The error behind this one.
    pub fn source(&self) -> (r: Option<&IoError>)
        ensures
            r == (match *self {
                ConfigError::Io(err) => Some(&err),
                _ => None,
            }),
    {
        match self {
            ConfigError::Io(err) => Some(err),
            _ => None,
        }
    }

    /// The error as one of input and output.
    pub open spec fn as_io(self) -> IoModel {
        match self {
            ConfigError::CircularInclude(path) => IoModel::Message(ErrorKind::InvalidInput, "circular include detected: "@ + path@),
            ConfigError::Parse(msg) => IoModel::Message(ErrorKind::InvalidData, msg@),
            ConfigError::Io(err) => err@,
        }
    }

    /// Turns the error into one of input and output.
    pub fn into_io(self) -> (r: IoError)
        ensures
            r@ == self.as_io(),
    {
        match self {
            ConfigError::CircularInclude(path) => IoError::new(ErrorKind::InvalidInput, joined("circular include detected: ", path.as_str())),
            ConfigError::Parse(msg) => IoError::new(ErrorKind::InvalidData, msg),
            ConfigError::Io(err) => err,
        }
    }
}

/// Errors originating from Kitty graphics protocol processing.
#[derive(Debug, Clone, PartialEq, Eq)]
pub enum KittyError {
    /// Malformed or invalid Kitty payload command parameters.
    InvalidPayload(String),
    /// Unsupported image compression or color format.
    UnsupportedFormat(u32),
    /// PNG decompression failed.
    PngDecode(String),
    /// POSIX shared memory payload read error.
    Shm(IoError),
}

impl KittyError {
    /// Whether a text is what the error says.
    pub open spec fn says(self, t: Seq<char>) -> bool {
        match self {
            KittyError::InvalidPayload(msg) => t == "invalid kitty payload: "@ + msg@,
            KittyError::UnsupportedFormat(format) => t == "unsupported kitty format: "@ + decimal(format as nat),
            KittyError::PngDecode(msg) => t == "failed to decode PNG: "@ + msg@,
            KittyError::Shm(err) => exists|u: Seq<char>| #[trigger] describes(err@, u) && t == "kitty shm error: "@ + u,
        }
    }

    pub fn to_string(&self) -> (r: String)
        ensures
            self.says(r@),
    {
        match self {
            KittyError::InvalidPayload(msg) => joined("invalid kitty payload: ", msg.as_str()),
            KittyError::UnsupportedFormat(format) => joined("unsupported kitty format: ", number_text(*format).as_str()),
            KittyError::PngDecode(msg) => joined("failed to decode PNG: ", msg.as_str()),
            KittyError::Shm(err) => {
                let text: String = err.to_string();
                assert(describes(err@, text@));
                joined("kitty shm error: ", text.as_str())
            },
        }
    }

    /// The error behind this one.
    pub fn source(&self) -> (r: Option<&IoError>)
        ensures
            r == (match *self {
                KittyError::Shm(err) => Some(&err),
                _ => None,
            }),
    {
        match self {
            KittyError::Shm(err) => Some(err),
            _ => None,
        }
    }

    /// The error as one of input and output.
    pub open spec fn as_io(self) -> IoModel {
        match self {
            KittyError::InvalidPayload(msg) => IoModel::Message(ErrorKind::InvalidInput, msg@),
            KittyError::UnsupportedFormat(format) => IoModel::Message(ErrorKind::Unsupported, "unsupported kitty format: "@ + decimal(format as nat)),
            KittyError::PngDecode(msg) => IoModel::Message(ErrorKind::InvalidData, msg@),
            KittyError::Shm(err) => err@,
        }
    }

    /// Turns the error into one of input and output.
    pub fn into_io(self) -> (r: IoError)
        ensures
            r@ == self.as_io(),
    {
        match self {
            KittyError::InvalidPayload(msg) => IoError::new(ErrorKind::InvalidInput, msg),
            KittyError::UnsupportedFormat(format) => IoError::new(ErrorKind::Unsupported, joined("unsupported kitty format: ", number_text(format).as_str())),
            KittyError::PngDecode(msg) => IoError::new(ErrorKind::InvalidData, msg),
            KittyError::Shm(err) => err,
        }
    }
}

/// Top-level domain error enum encapsulating all failure modes.
#[derive(Debug, Clone, PartialEq, Eq)]
pub enum FttyError {
    /// PTY allocation, process spawning, or terminal sizing failure.
    Pty(PtyError),
    /// Wayland connection, protocol dispatch, or state machine violation.
    Wayland(WaylandError),
    /// EGL context setup, shader compilation, or OpenGL rendering failure.
    Render(RenderError),
    /// Font discovery, parsing, or rasterization failure.
    Font(FontError),
    /// Configuration loading, parsing, or inclusion hierarchy failure.
    Config(ConfigError),
    /// Kitty graphics protocol parsing, decoding, or shared memory failure.
    Kitty(KittyError),
    /// General I/O or system call failure.
    Io(IoError),
}

/// The error behind a top-level one.
#[derive(Debug, PartialEq, Eq)]
pub enum Cause<'a> {
    Pty(&'a PtyError),
    Wayland(&'a WaylandError),
    Render(&'a RenderError),
    Font(&'a FontError),
    Config(&'a ConfigError),
    Kitty(&'a KittyError),
    Io(&'a IoError),
}

impl FttyError {
    /// Whether a text is what the error says.
    pub open spec fn says(self, t: Seq<char>) -> bool {
        match self {
            FttyError::Pty(e) => exists|u: Seq<char>| #[trigger] e.says(u) && t == "PTY error: "@ + u,
            FttyError::Wayland(e) => exists|u: Seq<char>| #[trigger] e.says(u) && t == "Wayland error: "@ + u,
            FttyError::Render(e) => t == "Render error: "@ + e.message(),
            FttyError::Font(e) => exists|u: Seq<char>| #[trigger] e.says(u) && t == "Font error: "@ + u,
            FttyError::Config(e) => exists|u: Seq<char>| #[trigger] e.says(u) && t == "Config error: "@ + u,
            FttyError::Kitty(e) => exists|u: Seq<char>| #[trigger] e.says(u) && t == "Kitty protocol error: "@ + u,
            FttyError::Io(e) => exists|u: Seq<char>| #[trigger] describes(e@, u) && t == "I/O error: "@ + u,
        }
    }

    pub fn to_string(&self) -> (r: String)
        ensures
            self.says(r@),
    {
        match self {
            FttyError::Pty(e) => {
                let text: String = e.to_string();
                assert(e.says(text@));
                joined("PTY error: ", text.as_str())
            },
            FttyError::Wayland(e) => {
                let text: String = e.to_string();
                assert(e.says(text@));
                joined("Wayland error: ", text.as_str())
            },
            FttyError::Render(e) => {
                let text: String = e.to_string();
                joined("Render error: ", text.as_str())
            },
            FttyError::Font(e) => {
                let text: String = e.to_string();
                assert(e.says(text@));
                joined("Font error: ", text.as_str())
            },
            FttyError::Config(e) => {
                let text: String = e.to_string();
                assert(e.says(text@));
                joined("Config error: ", text.as_str())
            },
            FttyError::Kitty(e) => {
                let text: String = e.to_string();
                assert(e.says(text@));
                joined("Kitty protocol error: ", text.as_str())
            },
            FttyError::Io(e) => {
                let text: String = e.to_string();
                assert(describes(e@, text@));
                joined("I/O error: ", text.as_str())
            },
        }
    }

    /// The error behind this one.
    pub fn source(&self) -> (r: Option<Cause<'_>>)
        ensures
            r == Some(match *self {
                FttyError::Pty(e) => Cause::Pty(&e),
                FttyError::Wayland(e) => Cause::Wayland(&e),
                FttyError::Render(e) => Cause::Render(&e),
                FttyError::Font(e) => Cause::Font(&e),
                FttyError::Config(e) => Cause::Config(&e),
                FttyError::Kitty(e) => Cause::Kitty(&e),
                FttyError::Io(e) => Cause::Io(&e),
            }),
    {
        Some(match self {
            FttyError::Pty(e) => Cause::Pty(e),
            FttyError::Wayland(e) => Cause::Wayland(e),
            FttyError::Render(e) => Cause::Render(e),
            FttyError::Font(e) => Cause::Font(e),
            FttyError::Config(e) => Cause::Config(e),
            FttyError::Kitty(e) => Cause::Kitty(e),
            FttyError::Io(e) => Cause::Io(e),
        })
    }

    /// Turns the error into one of input and output.
    pub fn into_io(self) -> (r: IoError)
        ensures
            r@ == (match self {
                FttyError::Pty(e) => e.as_io(),
                FttyError::Wayland(e) => e.as_io(),
                FttyError::Render(e) => e.as_io(),
                FttyError::Font(e) => e.as_io(),
                FttyError::Config(e) => e.as_io(),
                FttyError::Kitty(e) => e.as_io(),
                FttyError::Io(e) => e@,
            }),
    {
        match self {
            FttyError::Pty(e) => e.into_io(),
            FttyError::Wayland(e) => e.into_io(),
            FttyError::Render(e) => e.into_io(),
            FttyError::Font(e) => e.into_io(),
            FttyError::Config(e) => e.into_io(),
            FttyError::Kitty(e) => e.into_io(),
            FttyError::Io(e) => e,
        }
    }
}

impl From<PtyError> for FttyError {
    fn from(err: PtyError) -> (r: Self) {
        FttyError::Pty(err)
    }
}

impl FromSpecImpl<PtyError> for FttyError {
    open spec fn obeys_from_spec() -> bool {
        true
    }

    open spec fn from_spec(err: PtyError) -> Self {
        FttyError::Pty(err)
    }
}

impl From<WaylandError> for FttyError {
    fn from(err: WaylandError) -> (r: Self) {
        FttyError::Wayland(err)
    }
}

impl FromSpecImpl<WaylandError> for FttyError {
    open spec fn obeys_from_spec() -> bool {
        true
    }

    open spec fn from_spec(err: WaylandError) -> Self {
        FttyError::Wayland(err)
    }
}

impl From<RenderError> for FttyError {
    fn from(err: RenderError) -> (r: Self) {
        FttyError::Render(err)
    }
}

impl FromSpecImpl<RenderError> for FttyError {
    open spec fn obeys_from_spec() -> bool {
        true
    }

    open spec fn from_spec(err: RenderError) -> Self {
        FttyError::Render(err)
    }
}

impl From<FontError> for FttyError {
    fn from(err: FontError) -> (r: Self) {
        FttyError::Font(err)
    }
}

impl FromSpecImpl<FontError> for FttyError {
    open spec fn obeys_from_spec() -> bool {
        true
    }

    open spec fn from_spec(err: FontError) -> Self {
        FttyError::Font(err)
    }
}

impl From<ConfigError> for FttyError {
    fn from(err: ConfigError) -> (r: Self) {
        FttyError::Config(err)
    }
}

impl FromSpecImpl<ConfigError> for FttyError {
    open spec fn obeys_from_spec() -> bool {
        true
    }

    open spec fn from_spec(err: ConfigError) -> Self {
        FttyError::Config(err)
    }
}

impl From<KittyError> for FttyError {
    fn from(err: KittyError) -> (r: Self) {
        FttyError::Kitty(err)
    }
}

impl FromSpecImpl<KittyError> for FttyError {
    open spec fn obeys_from_spec() -> bool {
        true
    }

    open spec fn from_spec(err: KittyError) -> Self {
        FttyError::Kitty(err)
    }
}

impl From<IoError> for FttyError {
    fn from(err: IoError) -> (r: Self) {
        FttyError::Io(err)
    }
}

impl FromSpecImpl<IoError> for FttyError {
    open spec fn obeys_from_spec() -> bool {
        true
    }

    open spec fn from_spec(err: IoError) -> Self {
        FttyError::Io(err)
    }
}

/// An error of input or output stays what it is, whatever error it comes wrapped in.
pub proof fn law_io_errors_pass_through(e: IoError)
    ensures
        PtyError::Io(e).as_io() == e@,
        WaylandError::Io(e).as_io() == e@,
        FontError::Io(e).as_io() == e@,
        ConfigError::Io(e).as_io() == e@,
        KittyError::Shm(e).as_io() == e@,
{
}

/// Numbers below zero are written with a minus sign before their size, and sizes with an `x` between
/// width and height.
pub proof fn law_numbers_in_messages(n: int, w: u32, h: u32)
    ensures
        n >= 0 ==> signed(n) == decimal(n as nat),
        n < 0 ==> signed(n) == seq!['-'] + decimal((0 - n) as nat),
        size_text(w, h) == decimal(w as nat) + seq!['x'] + decimal(h as nat),
{
    reveal_strlit("x");
    assert("x"@ =~= seq!['x']);
}

} // verus!
