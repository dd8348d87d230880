//! The commands whose standard output a process stream reads: a plain
//! command, `yt-dlp`, an `ffmpeg` audio conversion, and pipelines of them. The
//! processes themselves are spawned with the I/O.
use vstd::prelude::*;

use crate::source::StreamOutcome;

verus! {

/// The characters of each string.
pub open spec fn strings_view(v: Seq<String>) -> Seq<Seq<char>> {
    v.map_values(|s: String| s@)
}

/// A program and its arguments.
#[derive(Debug)]
pub struct Command {
    program: String,
    args: Vec<String>,
}

impl Command {
    /// The program.
    pub closed spec fn spec_program(&self) -> Seq<char> {
        self.program@
    }

    /// The arguments.
    pub closed spec fn spec_args(&self) -> Seq<Seq<char>> {
        strings_view(self.args@)
    }

    /// A command running `program` with no arguments.
    pub fn new(program: String) -> (r: Self)
        ensures
            r.spec_program() == program@,
            r.spec_args() == Seq::<Seq<char>>::empty(),
    {
        let r = Command { program, args: Vec::new() };
        assert(r.spec_args() =~= Seq::<Seq<char>>::empty());
        r
    }

    /// Adds `args`, in order, after the current arguments.
    pub fn args(self, args: Vec<String>) -> (r: Self)
        ensures
            r.spec_program() == self.spec_program(),
            r.spec_args() == self.spec_args() + strings_view(args@),
    {
        let mut cmd = self;
        let mut i: usize = 0;
        let ghost start = cmd.spec_args();
        while i < args.len()
            invariant
                i <= args@.len(),
                cmd.spec_program() == self.spec_program(),
                cmd.spec_args() == start + strings_view(args@.subrange(0, i as int)),
            decreases args@.len() - i,
        {
            let a = args[i].clone();
            cmd = cmd.arg(a);
            i = i + 1;
            assert(strings_view(args@.subrange(0, i as int)) =~= strings_view(
                args@.subrange(0, (i - 1) as int),
            ).push(args@[i - 1]@));
        }
        assert(args@.subrange(0, args@.len() as int) =~= args@);
        cmd
    }

    /// Adds one argument after the current ones.
    pub fn arg(self, arg: String) -> (r: Self)
        ensures
            r.spec_program() == self.spec_program(),
            r.spec_args() == self.spec_args().push(arg@),
    {
        let mut cmd = self;
        cmd.args.push(arg);
        assert(cmd.spec_args() =~= self.spec_args().push(arg@));
        cmd
    }

    /// Inserts an argument at `index` (at most the number of arguments).
    pub fn insert_arg(self, index: usize, arg: String) -> (r: Self)
        requires
            index <= self.spec_args().len(),
        ensures
            r.spec_program() == self.spec_program(),
            r.spec_args() == self.spec_args().insert(index as int, arg@),
    {
        let mut cmd = self;
        cmd.args.insert(index, arg);
        assert(cmd.spec_args() =~= self.spec_args().insert(index as int, arg@));
        cmd
    }

    /// Replaces the program.
    pub fn program(self, program: String) -> (r: Self)
        ensures
            r.spec_program() == program@,
            r.spec_args() == self.spec_args(),
    {
        let mut cmd = self;
        cmd.program = program;
        cmd
    }

    /// The program.
    pub fn get_program(&self) -> (r: &String)
        ensures
            r@ == self.spec_program(),
    {
        &self.program
    }

    /// The arguments.
    pub fn get_args(&self) -> (r: &Vec<String>)
        ensures
            strings_view(r@) == self.spec_args(),
    {
        &self.args
    }

    /// The number of arguments.
    pub fn args_len(&self) -> (r: usize)
        ensures
            r == self.spec_args().len(),
    {
        self.args.len()
    }
}

/// Builds a `yt-dlp` command that writes the media to standard output.
#[derive(Debug)]
pub struct YtDlpCommand {
    url: String,
    cmd_name: String,
    extract_audio: bool,
    format: Option<String>,
}

impl YtDlpCommand {
    /// The URL to download.
    pub closed spec fn spec_url(&self) -> Seq<char> {
        self.url@
    }

    /// The path of the `yt-dlp` binary.
    pub closed spec fn spec_cmd_name(&self) -> Seq<char> {
        self.cmd_name@
    }

    /// Whether only the audio is extracted.
    pub closed spec fn spec_extract_audio(&self) -> bool {
        self.extract_audio
    }

    /// The requested format, if any.
    pub closed spec fn spec_format(&self) -> Option<Seq<char>> {
        match self.format {
            Some(f) => Some(f@),
            None => None,
        }
    }

    /// A command for `url`, run as `yt-dlp`, keeping video, any format.
    pub fn new(url: String) -> (r: Self)
        ensures
            r.spec_url() == url@,
            r.spec_cmd_name() == "yt-dlp"@,
            !r.spec_extract_audio(),
            r.spec_format() is None,
    {
        YtDlpCommand { url, cmd_name: String::from_str("yt-dlp"), extract_audio: false, format: None }
    }

    /// The command: `<cmd> <url> --quiet -o -`, then `-x` to extract audio,
    /// then `-f <format>` when a format is set.
    pub fn into_command(self) -> (r: Command)
        ensures
            r.spec_program() == self.spec_cmd_name(),
            r.spec_args() == seq![self.spec_url(), "--quiet"@, "-o"@, "-"@] + (if self.spec_extract_audio() {
                seq!["-x"@]
            } else {
                Seq::<Seq<char>>::empty()
            }) + match self.spec_format() {
                Some(f) => seq!["-f"@, f],
                None => Seq::<Seq<char>>::empty(),
            },
    {
        let ghost url = self.url@;
        let mut cmd = Command::new(self.cmd_name);
        cmd = cmd.arg(self.url);
        cmd = cmd.arg(String::from_str("--quiet"));
        cmd = cmd.arg(String::from_str("-o"));
        cmd = cmd.arg(String::from_str("-"));
        let ghost base = cmd.spec_args();
        assert(base =~= seq![url, "--quiet"@, "-o"@, "-"@]);
        if self.extract_audio {
            cmd = cmd.arg(String::from_str("-x"));
        }
        let ghost with_x = cmd.spec_args();
        assert(with_x =~= base + (if self.extract_audio {
            seq!["-x"@]
        } else {
            Seq::<Seq<char>>::empty()
        }));
        match self.format {
            Some(format) => {
                cmd = cmd.arg(String::from_str("-f"));
                cmd = cmd.arg(format);
                assert(cmd.spec_args() =~= with_x + seq!["-f"@, self.spec_format()->0]);
            },
            None => {
                assert(cmd.spec_args() =~= with_x + Seq::<Seq<char>>::empty());
            },
        }
        cmd
    }

    /// Sets whether only the audio is extracted.
    pub fn extract_audio(self, extract_audio: bool) -> (r: Self)
        ensures
            r.spec_url() == self.spec_url(),
            r.spec_cmd_name() == self.spec_cmd_name(),
            r.spec_extract_audio() == extract_audio,
            r.spec_format() == self.spec_format(),
    {
        YtDlpCommand { extract_audio, ..self }
    }

    /// Sets the format to extract.
    pub fn format(self, format: String) -> (r: Self)
        ensures
            r.spec_url() == self.spec_url(),
            r.spec_cmd_name() == self.spec_cmd_name(),
            r.spec_extract_audio() == self.spec_extract_audio(),
            r.spec_format() == Some(format@),
    {
        YtDlpCommand { format: Some(format), ..self }
    }

    /// Sets the path of the `yt-dlp` binary.
    pub fn yt_dlp_path(self, path: String) -> (r: Self)
        ensures
            r.spec_url() == self.spec_url(),
            r.spec_cmd_name() == path@,
            r.spec_extract_audio() == self.spec_extract_audio(),
            r.spec_format() == self.spec_format(),
    {
        YtDlpCommand { cmd_name: path, ..self }
    }
}

/// The arguments `ffmpeg` starts with: read standard input, keep the audio
/// streams, convert to `format`, log errors only, and write to standard output.
pub open spec fn ffmpeg_base_args(format: Seq<char>) -> Seq<Seq<char>> {
    seq!["-i"@, "pipe:"@, "-map"@, "a"@, "-f"@, format, "-loglevel"@, "error"@, "-"@]
}

/// Builds an `ffmpeg` command that converts the audio on standard input to a
/// format and writes it to standard output.
#[derive(Debug)]
pub struct FfmpegConvertAudioCommand(Command);

impl FfmpegConvertAudioCommand {
    /// The command.
    pub closed spec fn spec_command(&self) -> Command {
        self.0
    }

    /// A conversion to `format`.
    pub fn new(format: String) -> (r: Self)
        ensures
            r.spec_command().spec_program() == "ffmpeg"@,
            r.spec_command().spec_args() == ffmpeg_base_args(format@),
    {
        let ghost f = format@;
        let mut cmd = Command::new(String::from_str("ffmpeg"));
        cmd = cmd.arg(String::from_str("-i"));
        cmd = cmd.arg(String::from_str("pipe:"));
        cmd = cmd.arg(String::from_str("-map"));
        cmd = cmd.arg(String::from_str("a"));
        cmd = cmd.arg(String::from_str("-f"));
        cmd = cmd.arg(format);
        cmd = cmd.arg(String::from_str("-loglevel"));
        cmd = cmd.arg(String::from_str("error"));
        cmd = cmd.arg(String::from_str("-"));
        assert(cmd.spec_args() =~= ffmpeg_base_args(f));
        FfmpegConvertAudioCommand(cmd)
    }

    /// Sets the path of the `ffmpeg` binary.
    pub fn ffmpeg_path(self, path: String) -> (r: Self)
        ensures
            r.spec_command().spec_program() == path@,
            r.spec_command().spec_args() == self.spec_command().spec_args(),
    {
        FfmpegConvertAudioCommand(self.0.program(path))
    }

    /// Adds an argument just before the final `-`, which must stay last.
    pub fn arg(self, arg: String) -> (r: Self)
        requires
            self.spec_command().spec_args().len() > 0,
        ensures
            r.spec_command().spec_program() == self.spec_command().spec_program(),
            r.spec_command().spec_args() == self.spec_command().spec_args().insert(
                self.spec_command().spec_args().len() - 1,
                arg@,
            ),
    {
        let insert_pos = self.0.args_len() - 1;
        FfmpegConvertAudioCommand(self.0.insert_arg(insert_pos, arg))
    }

    /// Adds arguments, in order, just before the final `-`.
    pub fn args(self, args: Vec<String>) -> (r: Self)
        requires
            self.spec_command().spec_args().len() > 0,
        ensures
            r.spec_command().spec_program() == self.spec_command().spec_program(),
            r.spec_command().spec_args() == self.spec_command().spec_args().drop_last() + strings_view(args@)
                + seq![self.spec_command().spec_args().last()],
    {
        let ghost orig = self.spec_command().spec_args();
        let mut cmd = self;
        let mut i: usize = 0;
        while i < args.len()
            invariant
                i <= args@.len(),
                orig.len() > 0,
                cmd.spec_command().spec_program() == self.spec_command().spec_program(),
                cmd.spec_command().spec_args() == orig.drop_last() + strings_view(args@.subrange(0, i as int))
                    + seq![orig.last()],
            decreases args@.len() - i,
        {
            let a = args[i].clone();
            let ghost before = cmd.spec_command().spec_args();
            cmd = cmd.arg(a);
            i = i + 1;
            assert(strings_view(args@.subrange(0, i as int)) =~= strings_view(
                args@.subrange(0, (i - 1) as int),
            ).push(args@[i - 1]@));
            assert(cmd.spec_command().spec_args() =~= orig.drop_last() + strings_view(
                args@.subrange(0, i as int),
            ) + seq![orig.last()]);
        }
        assert(args@.subrange(0, args@.len() as int) =~= args@);
        cmd
    }

    /// The command.
    pub fn into_command(self) -> (r: Command)
        ensures
            r == self.spec_command(),
    {
        self.0
    }
}

/// A pipeline of commands, each reading the standard output of the one before.
#[derive(Debug)]
pub struct CommandBuilder {
    commands: Vec<Command>,
}

impl CommandBuilder {
    /// The commands, in pipeline order.
    pub closed spec fn spec_commands(&self) -> Seq<Command> {
        self.commands@
    }

    /// A pipeline of one command.
    pub fn new(command: Command) -> (r: Self)
        ensures
            r.spec_commands() == seq![command],
    {
        let mut commands = Vec::new();
        commands.push(command);
        assert(commands@ =~= seq![command]);
        CommandBuilder { commands }
    }

    /// Pipes the output of the pipeline into `command` (`cmd1 | cmd2`).
    pub fn pipe(self, command: Command) -> (r: Self)
        ensures
            r.spec_commands() == self.spec_commands().push(command),
    {
        let mut b = self;
        b.commands.push(command);
        b
    }

    /// The commands, in pipeline order.
    pub fn into_commands(self) -> (r: Vec<Command>)
        ensures
            r@ == self.spec_commands(),
            r@.len() > 0 || self.spec_commands().len() == 0,
    {
        self.commands
    }
}

/// Whether the standard error the process wrote is worth reporting once the
/// stream ends: when the stream ended without an error, it is when the command
/// exited with a failure; when the stream failed (and the process was killed),
/// it is unless the user cancelled the stream.
pub fn check_command_error(stream_ok: bool, exit_success: bool, outcome: StreamOutcome) -> (r: bool)
    ensures
        r == if stream_ok {
            !exit_success
        } else {
            outcome == StreamOutcome::Completed
        },
{
    if stream_ok {
        !exit_success
    } else {
        match outcome {
            StreamOutcome::Completed => true,
            StreamOutcome::CancelledByUser => false,
        }
    }
}

} // verus!
