//! The conversation with one chat: what the bot answers to each message or button press,
//! and which state the chat moves to.
use vstd::prelude::*;
use crate::files::{carries_file, extract_file_info, media_file, FileInfo, Media};
use crate::formats::{common_formats, contains_text, extensions, offered_formats};
use crate::menu::{format_menu, keyboard_view, menu_for, selection_prompt, selection_text, Button};
use crate::text::{decimal, push_decimal, same_text, to_uppercase, uppercase};

verus! {

/// Where a chat stands.
#[derive(Clone, Debug)]
pub enum State {
    /// Nothing has happened yet.
    Start,
    /// The bot waits for files.
    ReceiveFiles,
    /// The bot has offered `possible_formats` for `files` and waits for a choice.
    WaitFormatSelection {
        files: Vec<FileInfo>,
        possible_formats: Vec<String>,
        group_id: Option<String>,
    },
}

impl Default for State {
    fn default() -> (s: Self)
        ensures
            s == State::Start,
    {
        State::Start
    }
}

/// The commands the bot knows.
#[derive(Clone, Copy, Debug, PartialEq, Eq, Structural)]
pub enum Command {
    /// Start working with the bot.
    Start,
    /// Cancel what is going on.
    Cancel,
}

/// The answer to a command.
pub open spec fn command_reply(cmd: Command) -> Seq<char> {
    match cmd {
        Command::Start => "Привет! Я универсальный конвертер файлов.\n\nОтправь мне файл, фото, аудио или видео, и я предложу форматы для конвертации. Ты можешь отправить несколько файлов сразу (альбомом)."@,
        Command::Cancel => "Операция отменена. Жду новые файлы."@,
    }
}

/// Answers a command: a greeting for `/start`, a confirmation for `/cancel`; either way the
/// chat then waits for files.
pub fn answer_command(cmd: Command) -> (res: (String, State))
    ensures
        res.0@ == command_reply(cmd),
        res.1 == State::ReceiveFiles,
{
    let text = match cmd {
        Command::Start => String::from_str(
            "Привет! Я универсальный конвертер файлов.\n\nОтправь мне файл, фото, аудио или видео, и я предложу форматы для конвертации. Ты можешь отправить несколько файлов сразу (альбомом).",
        ),
        Command::Cancel => String::from_str("Операция отменена. Жду новые файлы."),
    };
    (text, State::ReceiveFiles)
}

/// What to do once files are ready for a choice of format.
#[derive(Debug)]
pub enum SelectionPlan {
    /// There are no files: nothing to do.
    Nothing,
    /// The files have no format in common: tell the user so.
    NoCommonFormat { text: String },
    /// Show `text` with the menu `keyboard`, and move the chat to `next`.
    Offer { text: String, keyboard: Vec<Vec<Button>>, next: State },
}

/// The message for files without a common format.
pub open spec fn no_common_format_text() -> Seq<char> {
    "Извините, не нашел общих форматов для конвертации этих файлов."@
}

/// `plan` is what the bot does with `files` (from album `group_id`, if any): nothing for no
/// files, an apology when they share no format, otherwise the menu of the formats they share
/// and a state that waits for the choice among exactly those formats.
pub open spec fn selection_planned(
    files: Seq<FileInfo>,
    group_id: Option<String>,
    plan: SelectionPlan,
) -> bool {
    let formats = common_formats(extensions(files));
    if files.len() == 0 {
        plan is Nothing
    } else if formats.len() == 0 {
        plan matches SelectionPlan::NoCommonFormat { text } && text@ == no_common_format_text()
    } else {
        match plan {
            SelectionPlan::Offer { text, keyboard, next } => {
                &&& text@ == selection_prompt(files)
                &&& keyboard_view(keyboard@) == menu_for(formats)
                &&& next matches State::WaitFormatSelection { files: kept, possible_formats, group_id: g }
                &&& kept@ == files
                &&& possible_formats.deep_view() == formats
                &&& g == group_id
            },
            _ => false,
        }
    }
}

/// What the bot does once `files` are ready for a choice of format.
pub fn plan_format_selection(files: Vec<FileInfo>, group_id: Option<String>) -> (res: SelectionPlan)
    ensures
        selection_planned(files@, group_id, res),
{
    if files.len() == 0 {
        return SelectionPlan::Nothing;
    }
    let formats = offered_formats(&files);
    if formats.len() == 0 {
        return SelectionPlan::NoCommonFormat {
            text: String::from_str("Извините, не нашел общих форматов для конвертации этих файлов."),
        };
    }
    let keyboard = format_menu(&formats);
    let text = selection_text(&files);
    SelectionPlan::Offer {
        text,
        keyboard,
        next: State::WaitFormatSelection { files, possible_formats: formats, group_id },
    }
}

/// What to do with a message that arrives while the bot waits for files.
#[derive(Debug)]
pub enum FilePlan {
    /// The message holds no file: ask for one.
    AskForFile { text: String },
    /// The file belongs to an album: keep it with the album's other files.
    Collect { group_id: String, file: FileInfo },
    /// A single file: offer its formats.
    Select(SelectionPlan),
}

/// The request for a file.
pub open spec fn ask_for_file_text() -> Seq<char> {
    "Пожалуйста, отправь мне файл (документ, фото, аудио или видео)."@
}

/// What the bot does with a message carrying `media`, sent as message `message_id` and, for
/// an album, with album id `group_id`: asks for a file where there is none, keeps an album's
/// file for later, and offers formats for a single file at once.
pub fn plan_file_message(media: &Media, message_id: i32, group_id: Option<String>) -> (res: FilePlan)
    ensures
        if !carries_file(*media) {
            res matches FilePlan::AskForFile { text } && text@ == ask_for_file_text()
        } else if group_id is Some {
            res matches FilePlan::Collect { group_id: g, file } && Some(g) == group_id && media_file(
                *media,
                message_id,
                file,
            )
        } else {
            res matches FilePlan::Select(plan) && exists|f: FileInfo|
                #[trigger] media_file(*media, message_id, f) && selection_planned(seq![f], None, plan)
        },
{
    match extract_file_info(media, message_id) {
        None => FilePlan::AskForFile {
            text: String::from_str("Пожалуйста, отправь мне файл (документ, фото, аудио или видео)."),
        },
        Some(file) => match group_id {
            Some(g) => FilePlan::Collect { group_id: g, file },
            None => {
                let ghost f = file;
                let mut files: Vec<FileInfo> = Vec::new();
                files.push(file);
                assert(files@ =~= seq![f]);
                let plan = plan_format_selection(files, None);
                assert(media_file(*media, message_id, f) && selection_planned(seq![f], None, plan));
                FilePlan::Select(plan)
            },
        },
    }
}

/// What to do when a button of the format menu is pressed.
#[derive(Debug)]
pub enum SelectionAnswer {
    /// The press carries no data: leave it unanswered.
    Ignore,
    /// The menu's message is gone: only acknowledge the press.
    Acknowledge,
    /// The user cancelled: remove the menu, send `reply` and move to `next`.
    Cancelled { reply: String, next: State },
    /// The format is not one that was offered: remove the menu, send `reply` and keep
    /// waiting.
    Rejected { reply: String },
    /// Convert every file to `target`: remove the menu, announce it with `announce`, and
    /// acknowledge the press once the run is over.
    Convert { target: String, announce: String },
}

/// The announcement of a conversion of `count` files to `target`.
pub open spec fn announcement(count: nat, target: Seq<char>) -> Seq<char> {
    "Начинаю конвертацию "@ + decimal(count) + " файлов в "@ + uppercase(target) + "..."@
}

/// What the bot does when a menu button sending `data` is pressed while it waits for a
/// format for `files`, offered `possible_formats`; `has_message` tells whether the menu's
/// message is still there. Only an offered format is ever converted to.
pub fn plan_selection_answer(
    files: &Vec<FileInfo>,
    possible_formats: &Vec<String>,
    data: Option<String>,
    has_message: bool,
) -> (res: SelectionAnswer)
    ensures
        match data {
            None => res is Ignore,
            Some(d) => if !has_message {
                res is Acknowledge
            } else if d@ == "cancel"@ {
                res matches SelectionAnswer::Cancelled { reply, next } && reply@
                    == "Конвертация отменена."@ && next == State::ReceiveFiles
            } else if !possible_formats.deep_view().contains(d@) {
                res matches SelectionAnswer::Rejected { reply } && reply@ == "Недопустимый формат."@
            } else {
                res matches SelectionAnswer::Convert { target, announce } && target@ == d@ && announce@
                    == announcement(files.len() as nat, d@)
            },
        },
{
    let choice = match data {
        Some(d) => d,
        None => return SelectionAnswer::Ignore,
    };
    if !has_message {
        return SelectionAnswer::Acknowledge;
    }
    if same_text(choice.as_str(), "cancel") {
        return SelectionAnswer::Cancelled {
            reply: String::from_str("Конвертация отменена."),
            next: State::ReceiveFiles,
        };
    }
    if !contains_text(possible_formats, &choice) {
        return SelectionAnswer::Rejected { reply: String::from_str("Недопустимый формат.") };
    }
    let mut announce = String::from_str("Начинаю конвертацию ");
    push_decimal(&mut announce, files.len());
    announce.append(" файлов в ");
    announce.append(to_uppercase(choice.as_str()).as_str());
    announce.append("...");
    assert(announce@ =~= announcement(files.len() as nat, choice@));
    SelectionAnswer::Convert { target: choice, announce }
}

} // verus!
