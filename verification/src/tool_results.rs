//! Messages that a tool run asks to deliver to Telegram.
use vstd::prelude::*;
use crate::text::{blank, is_blank};

verus! {

/// Where in the Telegram conversation an item is delivered.
#[derive(Debug, Clone, Copy, PartialEq, Eq, Structural)]
pub enum TelegramDeliverySurface {
    Content,
    Status,
    Draft,
    Control,
    Edit,
}

/// One item to deliver.
#[derive(Debug, Clone)]
pub enum TelegramOutboxItem {
    Text { text: String, surface: TelegramDeliverySurface },
    Photo { path: String, caption: Option<String>, surface: TelegramDeliverySurface },
    Document { path: String, caption: Option<String>, surface: TelegramDeliverySurface },
}

/// The items a tool run asks to deliver, in order.
#[derive(Debug, Clone)]
pub struct TelegramOutbox {
    pub items: Vec<TelegramOutboxItem>,
}

impl Default for TelegramDeliverySurface {
    /// Items that name no surface are content.
    fn default() -> (r: Self)
        ensures
            r == TelegramDeliverySurface::Content,
    {
        TelegramDeliverySurface::Content
    }
}

/// The text of the error for a blank text item.
pub const INVALID_TEXT_ITEM_MESSAGE: &'static str = "Invalid telegram outbox text item.";

/// The text of the error for a file item with a blank path.
pub const INVALID_FILE_ITEM_MESSAGE: &'static str = "Invalid telegram outbox file item.";

/// Why an outbox is refused.
#[derive(Debug, Clone, Copy, PartialEq, Eq, Structural)]
pub enum TelegramOutboxError {
    /// A text item whose text is blank.
    InvalidTextItem,
    /// A photo or document item whose path is blank.
    InvalidFileItem,
}

impl TelegramOutboxError {
    /// The error's text.
    pub fn message(&self) -> (r: &'static str)
        ensures
            r@ == match self {
                TelegramOutboxError::InvalidTextItem => INVALID_TEXT_ITEM_MESSAGE@,
                TelegramOutboxError::InvalidFileItem => INVALID_FILE_ITEM_MESSAGE@,
            },
    {
        match self {
            TelegramOutboxError::InvalidTextItem => INVALID_TEXT_ITEM_MESSAGE,
            TelegramOutboxError::InvalidFileItem => INVALID_FILE_ITEM_MESSAGE,
        }
    }
}

/// What is wrong with one item, if anything: a blank text, or a blank
/// file path.
pub open spec fn item_error(item: TelegramOutboxItem) -> Option<TelegramOutboxError> {
    match item {
        TelegramOutboxItem::Text { text, .. } => if is_blank(text@) {
            Some(TelegramOutboxError::InvalidTextItem)
        } else {
            None
        },
        TelegramOutboxItem::Photo { path, .. } => if is_blank(path@) {
            Some(TelegramOutboxError::InvalidFileItem)
        } else {
            None
        },
        TelegramOutboxItem::Document { path, .. } => if is_blank(path@) {
            Some(TelegramOutboxError::InvalidFileItem)
        } else {
            None
        },
    }
}

/// The error of the first item that has one.
pub open spec fn first_item_error(items: Seq<TelegramOutboxItem>) -> Option<TelegramOutboxError>
    decreases items.len(),
{
    if items.len() == 0 {
        None
    } else {
        match item_error(items[0]) {
            Some(e) => Some(e),
            None => first_item_error(items.drop_first()),
        }
    }
}

/// What is wrong with one item, if anything.
pub fn check_outbox_item(item: &TelegramOutboxItem) -> (r: Option<TelegramOutboxError>)
    ensures
        r == item_error(*item),
{
    match item {
        TelegramOutboxItem::Text { text, .. } => if blank(text.as_str()) {
            Some(TelegramOutboxError::InvalidTextItem)
        } else {
            None
        },
        TelegramOutboxItem::Photo { path, .. } => if blank(path.as_str()) {
            Some(TelegramOutboxError::InvalidFileItem)
        } else {
            None
        },
        TelegramOutboxItem::Document { path, .. } => if blank(path.as_str()) {
            Some(TelegramOutboxError::InvalidFileItem)
        } else {
            None
        },
    }
}

/// Accepts an outbox whose items are all deliverable, and refuses it with
/// the error of its first item that is not.
pub fn validate_telegram_outbox(outbox: TelegramOutbox) -> (r: Result<TelegramOutbox, TelegramOutboxError>)
    ensures
        match first_item_error(outbox.items@) {
            None => r == Ok::<TelegramOutbox, TelegramOutboxError>(outbox),
            Some(e) => r == Err::<TelegramOutbox, TelegramOutboxError>(e),
        },
{
    let ghost items = outbox.items@;
    let mut i: usize = 0;
    proof {
        assert(items.skip(0) =~= items);
    }
    while i < outbox.items.len()
        invariant
            i <= items.len(),
            items == outbox.items@,
            first_item_error(items) == first_item_error(items.skip(i as int)),
        decreases items.len() - i,
    {
        proof {
            assert(items.skip(i as int)[0] == items[i as int]);
            assert(items.skip(i as int).drop_first() =~= items.skip(i + 1));
        }
        match check_outbox_item(&outbox.items[i]) {
            Some(e) => return Err(e),
            None => {},
        }
        i += 1;
    }
    proof {
        assert(items.skip(i as int).len() == 0);
    }
    Ok(outbox)
}

} // verus!
