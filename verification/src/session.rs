//! One session of the browser: the window, the port, the watcher and the arguments of `fzf`.
use crate::outside;
use crate::program::lemma_texts_push;
use crate::text;
use vstd::prelude::*;
use vstd::string::*;

verus! {

/// The window is large enough for the list and the preview.
pub open spec fn large_enough(cols: u16, lines: u16) -> bool {
    cols >= 35 && lines >= 25
}

/// How the wait for the window goes on.
#[derive(Clone, Copy, Debug, PartialEq, Eq, Structural)]
pub enum WaitStep {
    /// The window is large enough: wait no longer.
    Ready,
    /// Sleep a while, and look again.
    Sleep,
}

/// The wait for a window that is large enough: it gives up after a number of looks.
pub struct WindowWait {
    left: u32,
}

impl View for WindowWait {
    type V = nat;

    /// How many looks are left.
    closed spec fn view(&self) -> nat {
        self.left as nat
    }
}

impl WindowWait {
    /// A wait of at most 50 looks.
    pub fn new() -> (res: Self)
        ensures
            res@ == 50,
    {
        WindowWait { left: 50 }
    }

    /// Whether there is a look left.
    pub fn waiting(&self) -> (res: bool)
        ensures
            res == (self@ > 0),
    {
        self.left > 0
    }

    /// Takes one look at the columns and lines of the window, if they can be had.
    pub fn look(&mut self, size: Option<(u16, u16)>) -> (res: WaitStep)
        requires
            old(self)@ > 0,
        ensures
            res == WaitStep::Ready <==> (size matches Some((cols, lines)) && large_enough(
                cols,
                lines,
            )),
            res == WaitStep::Ready ==> final(self)@ == old(self)@,
            res == WaitStep::Sleep ==> final(self)@ == old(self)@ - 1,
    {
        if let Some((cols, lines)) = size {
            if cols >= 35 && lines >= 25 {
                return WaitStep::Ready;
            }
        }
        self.left = self.left - 1;
        WaitStep::Sleep
    }
}

/// The port that a draw of `r` gives.
pub open spec fn port_of(r: u16) -> int {
    r as int % 50000 + 10000
}

/// The port that a draw of `r` gives.
pub fn port_from(r: u16) -> (res: u16)
    ensures
        res == port_of(r),
        10000 <= res < 60000,
{
    r % 50000 + 10000
}

/// A port at random, from 10000 up to 59999.
pub fn random_port() -> (res: u16)
    ensures
        10000 <= res < 60000,
{
    port_from(outside::random_u16())
}

/// The file that keeps the id of the newest entry that the session with this port has shown.
pub open spec fn last_id_file(port: u16) -> Seq<char> {
    "/dev/shm/shorinclip_last_id_"@ + text::numeral(port as nat, 10)
}

/// The file that keeps the id of the newest entry that the session with this port has shown.
pub fn last_id_path(port: u16) -> (res: String)
    ensures
        res@ == last_id_file(port),
{
    let mut path = String::from_str("/dev/shm/shorinclip_last_id_");
    path.append(text::decimal(port as u64).as_str());
    path
}

/// The action of `fzf` that reads the list again.
pub open spec fn reload_of(exe: Seq<char>) -> Seq<char> {
    "reload("@ + exe + " list)"@
}

/// The action of `fzf` that reads the list again.
fn reload(exe: &str) -> (res: String)
    ensures
        res@ == reload_of(exe@),
{
    let mut action = String::from_str("reload(");
    action.append(exe);
    action.append(" list)");
    action
}

/// The script that is run whenever the clipboard changes: for a while it looks whether there
/// is a new entry, and if so it notes its id and has `fzf` read the list again.
pub open spec fn watcher_of(exe: Seq<char>, port: u16) -> Seq<char> {
    "for i in {1..10}; do CURRENT_ID=$(cliphist list | head -n 1 | cut -f1); LAST_ID=$(cat "@
        + last_id_file(port)
        + " 2>/dev/null); if [ -n \"$CURRENT_ID\" ] && [ \"$CURRENT_ID\" != \"$LAST_ID\" ]; then echo \"$CURRENT_ID\" > "@
        + last_id_file(port) + "; curl -s -X POST -d '"@ + reload_of(exe) + "' http://localhost:"@
        + text::numeral(port as nat, 10) + " & break; fi; sleep 0.2; done"@
}

/// The script that is run whenever the clipboard changes.
pub fn watcher_script(exe: &str, port: u16) -> (res: String)
    ensures
        res@ == watcher_of(exe@, port),
{
    let file = last_id_path(port);
    let mut script = String::from_str(
        "for i in {1..10}; do CURRENT_ID=$(cliphist list | head -n 1 | cut -f1); LAST_ID=$(cat ",
    );
    script.append(file.as_str());
    script.append(
        " 2>/dev/null); if [ -n \"$CURRENT_ID\" ] && [ \"$CURRENT_ID\" != \"$LAST_ID\" ]; then echo \"$CURRENT_ID\" > ",
    );
    script.append(file.as_str());
    script.append("; curl -s -X POST -d '");
    script.append(reload(exe).as_str());
    script.append("' http://localhost:");
    script.append(text::decimal(port as u64).as_str());
    script.append(" & break; fi; sleep 0.2; done");
    script
}

/// An argument that binds `key` to running a command of this program.
pub open spec fn bind_of(key: Seq<char>, exe: Seq<char>, command: Seq<char>, behind: Seq<char>) -> Seq<
    char,
> {
    "--bind="@ + key + ":execute-silent("@ + exe + command + ")"@ + behind
}

/// An argument that binds `key` to running a command of this program.
fn bind(key: &str, exe: &str, command: &str, behind: &str) -> (res: String)
    ensures
        res@ == bind_of(key@, exe@, command@, behind@),
{
    let mut arg = String::from_str("--bind=");
    arg.append(key);
    arg.append(":execute-silent(");
    arg.append(exe);
    arg.append(command);
    arg.append(")");
    arg.append(behind);
    arg
}

/// The arguments of `fzf`. `{1}` stands for the first field of the selected row, its id.
pub open spec fn fzf_args_of(exe: Seq<char>, port: u16) -> Seq<Seq<char>> {
    seq![
        "--ansi"@,
        "--listen"@,
        text::numeral(port as nat, 10),
        "--bind=ctrl-r:"@ + reload_of(exe),
        bind_of("ctrl-x"@, exe, " delete {1}"@, "+"@ + reload_of(exe)),
        bind_of("alt-x"@, exe, " delete-all"@, "+"@ + reload_of(exe)),
        bind_of("ctrl-o"@, exe, " open {1}"@, ""@),
        bind_of("ctrl-e"@, exe, " open {1}"@, ""@),
        "--prompt=󰅍 > "@,
        "--header=C^-X: Delete | Alt+X: D-All | C^-R: Reload | C^-O/E: Open | Enter/C^-F: Paste"@,
        "--color=header:italic:yellow,prompt:blue,pointer:blue"@,
        "--info=hidden"@,
        "--no-sort"@,
        "--layout=reverse"@,
        "--with-nth=2.."@,
        "--delimiter=\t"@,
        "--preview-window=down:60%,wrap"@,
        "--preview="@ + exe + " preview {1}"@,
        bind_of("enter"@, exe, " copy {1}"@, "+accept"@),
        bind_of("ctrl-f"@, exe, " copy {1}"@, "+accept"@),
        bind_of("ctrl-l"@, exe, " copy {1}"@, "+accept"@),
        bind_of("ctrl-h"@, exe, " copy {1}"@, "+accept"@),
    ]
}

/// Adds an argument to a list.
fn push_arg(args: &mut Vec<String>, arg: String)
    ensures
        text::texts(final(args)@) == text::texts(old(args)@).push(arg@),
{
    proof {
        lemma_texts_push(args@, arg);
    }
    args.push(arg);
}

/// The arguments of `fzf`.
pub fn fzf_args(exe: &str, port: u16) -> (res: Vec<String>)
    ensures
        text::texts(res@) == fzf_args_of(exe@, port),
{
    let mut args: Vec<String> = Vec::new();
    let mut again = String::from_str("+");
    again.append(reload(exe).as_str());
    let mut ctrl_r = String::from_str("--bind=ctrl-r:");
    ctrl_r.append(reload(exe).as_str());
    let mut preview = String::from_str("--preview=");
    preview.append(exe);
    preview.append(" preview {1}");
    assert(text::texts(args@) =~= Seq::empty());
    push_arg(&mut args, String::from_str("--ansi"));
    push_arg(&mut args, String::from_str("--listen"));
    push_arg(&mut args, text::decimal(port as u64));
    push_arg(&mut args, ctrl_r);
    push_arg(&mut args, bind("ctrl-x", exe, " delete {1}", again.as_str()));
    push_arg(&mut args, bind("alt-x", exe, " delete-all", again.as_str()));
    push_arg(&mut args, bind("ctrl-o", exe, " open {1}", ""));
    push_arg(&mut args, bind("ctrl-e", exe, " open {1}", ""));
    push_arg(&mut args, String::from_str("--prompt=󰅍 > "));
    push_arg(
        &mut args,
        String::from_str(
            "--header=C^-X: Delete | Alt+X: D-All | C^-R: Reload | C^-O/E: Open | Enter/C^-F: Paste",
        ),
    );
    push_arg(
        &mut args,
        String::from_str("--color=header:italic:yellow,prompt:blue,pointer:blue"),
    );
    push_arg(&mut args, String::from_str("--info=hidden"));
    push_arg(&mut args, String::from_str("--no-sort"));
    push_arg(&mut args, String::from_str("--layout=reverse"));
    push_arg(&mut args, String::from_str("--with-nth=2.."));
    push_arg(&mut args, String::from_str("--delimiter=\t"));
    push_arg(&mut args, String::from_str("--preview-window=down:60%,wrap"));
    push_arg(&mut args, preview);
    push_arg(&mut args, bind("enter", exe, " copy {1}", "+accept"));
    push_arg(&mut args, bind("ctrl-f", exe, " copy {1}", "+accept"));
    push_arg(&mut args, bind("ctrl-l", exe, " copy {1}", "+accept"));
    push_arg(&mut args, bind("ctrl-h", exe, " copy {1}", "+accept"));
    assert(text::texts(args@) =~= fzf_args_of(exe@, port));
    args
}

/// The keys do what they are said to do: Ctrl+X deletes the selected entry, Alt+X deletes all,
/// Ctrl+O and Ctrl+E open the selected entry, and Enter copies it.
pub proof fn keys_are_bound(exe: Seq<char>, port: u16)
    ensures
        fzf_args_of(exe, port).contains(
            bind_of("ctrl-x"@, exe, " delete {1}"@, "+"@ + reload_of(exe)),
        ),
        fzf_args_of(exe, port).contains(
            bind_of("alt-x"@, exe, " delete-all"@, "+"@ + reload_of(exe)),
        ),
        fzf_args_of(exe, port).contains(bind_of("ctrl-o"@, exe, " open {1}"@, ""@)),
        fzf_args_of(exe, port).contains(bind_of("ctrl-e"@, exe, " open {1}"@, ""@)),
        fzf_args_of(exe, port).contains(bind_of("enter"@, exe, " copy {1}"@, "+accept"@)),
{
    let args = fzf_args_of(exe, port);
    assert(args[4] == bind_of("ctrl-x"@, exe, " delete {1}"@, "+"@ + reload_of(exe)));
    assert(args[5] == bind_of("alt-x"@, exe, " delete-all"@, "+"@ + reload_of(exe)));
    assert(args[6] == bind_of("ctrl-o"@, exe, " open {1}"@, ""@));
    assert(args[7] == bind_of("ctrl-e"@, exe, " open {1}"@, ""@));
    assert(args[18] == bind_of("enter"@, exe, " copy {1}"@, "+accept"@));
}

/// The watcher compares with, and writes, the very file that the session has begun with, and
/// it has `fzf` read the list again at the port on which `fzf` listens.
pub proof fn watcher_serves_session(exe: Seq<char>, port: u16)
    ensures
        text::has_text(watcher_of(exe, port), "$(cat "@ + last_id_file(port) + " "@),
        text::has_text(watcher_of(exe, port), "> "@ + last_id_file(port) + ";"@),
        text::has_text(
            watcher_of(exe, port),
            reload_of(exe) + "' http://localhost:"@ + text::numeral(port as nat, 10),
        ),
        fzf_args_of(exe, port)[1] == "--listen"@,
        fzf_args_of(exe, port)[2] == text::numeral(port as nat, 10),
{
    let head =
        "for i in {1..10}; do CURRENT_ID=$(cliphist list | head -n 1 | cut -f1); LAST_ID=$(cat "@;
    let test =
        " 2>/dev/null); if [ -n \"$CURRENT_ID\" ] && [ \"$CURRENT_ID\" != \"$LAST_ID\" ]; then echo \"$CURRENT_ID\" > "@;
    let post = "; curl -s -X POST -d '"@;
    reveal_strlit(
        "for i in {1..10}; do CURRENT_ID=$(cliphist list | head -n 1 | cut -f1); LAST_ID=$(cat ",
    );
    reveal_strlit(
        " 2>/dev/null); if [ -n \"$CURRENT_ID\" ] && [ \"$CURRENT_ID\" != \"$LAST_ID\" ]; then echo \"$CURRENT_ID\" > ",
    );
    reveal_strlit("; curl -s -X POST -d '");
    reveal_strlit("$(cat ");
    reveal_strlit("> ");
    reveal_strlit(" ");
    reveal_strlit(";");
    let s = watcher_of(exe, port);
    let file = last_id_file(port);
    let read = "$(cat "@ + file + " "@;
    let write = "> "@ + file + ";"@;
    let call = reload_of(exe) + "' http://localhost:"@ + text::numeral(port as nat, 10);
    let i: int = head.len() - 6;
    assert(s.subrange(i, i + read.len()) =~= read);
    assert(text::occurs_at(s, read, i));
    let j: int = head.len() + file.len() + test.len() - 2;
    assert(s.subrange(j, j + write.len()) =~= write);
    assert(text::occurs_at(s, write, j));
    let k: int = (head.len() + file.len() + test.len() + file.len() + post.len()) as int;
    assert(s.subrange(k, k + call.len()) =~= call);
    assert(text::occurs_at(s, call, k));
}

/// Sessions on different ports keep their ids in different files.
pub proof fn sessions_are_apart(p: u16, q: u16)
    ensures
        last_id_file(p) == last_id_file(q) ==> p == q,
{
    if last_id_file(p) == last_id_file(q) {
        let lead = "/dev/shm/shorinclip_last_id_"@;
        let (m, n) = (text::numeral(p as nat, 10), text::numeral(q as nat, 10));
        assert(m =~= last_id_file(p).skip(lead.len() as int));
        assert(n =~= last_id_file(q).skip(lead.len() as int));
        text::lemma_numeral_injective(p as nat, q as nat, 10);
    }
}

/// A window is large enough from 35 columns and 25 lines on, and stays so when it grows.
pub proof fn windows_are_measured(cols: u16, lines: u16, wider: u16, higher: u16)
    ensures
        large_enough(35, 25),
        !large_enough(34, lines),
        !large_enough(cols, 24),
        large_enough(cols, lines) && cols <= wider && lines <= higher ==> large_enough(
            wider,
            higher,
        ),
{
}

/// A draw gives a port from 10000 up to 59999, and every 50000 draws the same.
pub proof fn ports_are_drawn(r: u16)
    ensures
        10000 <= port_of(r) <= 59999,
        (port_of(r) - 10000 - r) % 50000 == 0,
        r < 50000 ==> port_of(r) == r + 10000,
{
}

/// The file of a session, the action that reads the list again, and an argument that binds a key,
/// as they are written.
pub proof fn session_texts(
    exe: Seq<char>,
    port: u16,
    key: Seq<char>,
    command: Seq<char>,
    behind: Seq<char>,
)
    ensures
        last_id_file(port) == "/dev/shm/shorinclip_last_id_"@ + text::numeral(port as nat, 10),
        reload_of(exe) == "reload("@ + exe + " list)"@,
        bind_of(key, exe, command, behind) == "--bind="@ + key + ":execute-silent("@ + exe + command
            + ")"@ + behind,
{
}

/// Every argument of `fzf`: it listens on the port of the session, reads the list again, deletes,
/// opens, previews and copies the selected entry by its id, which it does not show, and keeps the
/// order of the list.
pub proof fn fzf_is_called(exe: Seq<char>, port: u16)
    ensures
        ({
            let args = fzf_args_of(exe, port);
            let again = "reload("@ + exe + " list)"@;
            &&& args.len() == 22
            &&& args[0] == "--ansi"@
            &&& args[1] == "--listen"@
            &&& args[2] == text::numeral(port as nat, 10)
            &&& args[3] == "--bind=ctrl-r:"@ + again
            &&& args[4] == "--bind="@ + "ctrl-x"@ + ":execute-silent("@ + exe + " delete {1}"@ + ")"@ + ("+"@ + again)
            &&& args[5] == "--bind="@ + "alt-x"@ + ":execute-silent("@ + exe + " delete-all"@ + ")"@ + ("+"@ + again)
            &&& args[6] == "--bind="@ + "ctrl-o"@ + ":execute-silent("@ + exe + " open {1}"@ + ")"@ + ""@
            &&& args[7] == "--bind="@ + "ctrl-e"@ + ":execute-silent("@ + exe + " open {1}"@ + ")"@ + ""@
            &&& args[8] == "--prompt=󰅍 > "@
            &&& args[9]
                == "--header=C^-X: Delete | Alt+X: D-All | C^-R: Reload | C^-O/E: Open | Enter/C^-F: Paste"@
            &&& args[10] == "--color=header:italic:yellow,prompt:blue,pointer:blue"@
            &&& args[11] == "--info=hidden"@
            &&& args[12] == "--no-sort"@
            &&& args[13] == "--layout=reverse"@
            &&& args[14] == "--with-nth=2.."@
            &&& args[15] == "--delimiter=\t"@
            &&& args[16] == "--preview-window=down:60%,wrap"@
            &&& args[17] == "--preview="@ + exe + " preview {1}"@
            &&& args[18] == "--bind="@ + "enter"@ + ":execute-silent("@ + exe + " copy {1}"@ + ")"@ + "+accept"@
            &&& args[19] == "--bind="@ + "ctrl-f"@ + ":execute-silent("@ + exe + " copy {1}"@ + ")"@ + "+accept"@
            &&& args[20] == "--bind="@ + "ctrl-l"@ + ":execute-silent("@ + exe + " copy {1}"@ + ")"@ + "+accept"@
            &&& args[21] == "--bind="@ + "ctrl-h"@ + ":execute-silent("@ + exe + " copy {1}"@ + ")"@ + "+accept"@
        }),
{
}

/// The script of the watcher, word for word: it looks ten times for a new entry, compares its id
/// with the one in the file of the session, and where they differ it notes the new one, has `fzf`
/// read the list again at its port, and stops.
pub proof fn watcher_is_written(exe: Seq<char>, port: u16)
    ensures
        ({
            let number = text::numeral(port as nat, 10);
            let file = "/dev/shm/shorinclip_last_id_"@ + number;
            watcher_of(exe, port)
                == "for i in {1..10}; do CURRENT_ID=$(cliphist list | head -n 1 | cut -f1); LAST_ID=$(cat "@
                + file
                + " 2>/dev/null); if [ -n \"$CURRENT_ID\" ] && [ \"$CURRENT_ID\" != \"$LAST_ID\" ]; then echo \"$CURRENT_ID\" > "@
                + file + "; curl -s -X POST -d '"@ + ("reload("@ + exe + " list)"@)
                + "' http://localhost:"@ + number + " & break; fi; sleep 0.2; done"@
        }),
{
}

} // verus!
