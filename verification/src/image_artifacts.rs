//! Image batches that wait in a thread for an analysis request, and the
//! texts shown for them.
use vstd::prelude::*;
use crate::text::{decimal, decimal_string, ends_with, is_blank, push_str, trim, blank, trimmed};

verus! {

/// One image of a pending batch.
#[derive(Debug, Clone)]
pub struct PendingImageBatchEntry {
    pub added_at: String,
    pub caption: Option<String>,
    pub file_name: String,
    pub mime_type: String,
    pub relative_path: String,
    pub source_message_id: i32,
    pub telegram_file_id: String,
}

/// Images collected in a thread that wait for an analysis request.
#[derive(Debug, Clone)]
pub struct PendingImageBatch {
    pub batch_id: String,
    pub control_message_id: Option<i32>,
    pub created_at: String,
    pub images: Vec<PendingImageBatchEntry>,
    pub latest_caption: Option<String>,
    pub updated_at: String,
}

/// The stored result of analysing an image batch.
#[derive(Debug, Clone)]
pub struct ImageAnalysisArtifact {
    pub batch_id: String,
    pub created_at: String,
    pub image_count: usize,
    pub images: Vec<ImageAnalysisImage>,
    pub prompt: String,
    pub result_text: String,
}

/// One analysed image.
#[derive(Debug, Clone)]
pub struct ImageAnalysisImage {
    pub file_name: String,
    pub mime_type: String,
    pub relative_path: String,
    pub source_message_id: i32,
}

/// The notice shown while a batch of `count` images waits, with the latest
/// caption as a hint when there is one.
pub open spec fn pending_batch_text(count: nat, caption: Option<Seq<char>>) -> Seq<char> {
    "Image batch queued for this thread.\nImages: "@ + decimal(count) + seq!['\n'] + match caption {
        Some(c) => "Latest hint: "@ + c + seq!['\n'],
        None => Seq::empty(),
    }
        + "Press the button below for direct analysis, or send your next text message as the analysis request for this image batch."@
}

pub open spec fn caption_view(c: Option<String>) -> Option<Seq<char>> {
    match c {
        Some(s) => Some(s@),
        None => None,
    }
}

/// The prompt for analysing a batch: with a non-blank user request the
/// request (trimmed) is to be answered from the images; otherwise a general
/// description for later image generation is asked for. The latest caption
/// is added as a hint.
pub open spec fn analysis_prompt(caption: Option<Seq<char>>, request: Option<Seq<char>>) -> Seq<
    char,
> {
    let sep = "\n\n"@;
    if request is Some && !is_blank(request->0) {
        "Analyze the attached image batch and answer the user's request directly."@ + sep
            + "If the user asks a question, answer that question using the images as evidence."@
            + sep + "If the user specifies a language, answer in that language."@ + sep
            + "User request: "@ + trimmed(request->0) + match caption {
            Some(c) => sep + "Latest image hint: "@ + c,
            None => Seq::empty(),
        }
    } else {
        "Please analyze this batch of images."@ + sep
            + "Describe the main subjects, composition, visual style, lighting, mood, and prompt-building cues that matter for later image generation work."@
            + match caption {
            Some(c) => sep + "User hint: "@ + c,
            None => Seq::empty(),
        }
    }
}

/// How the prompt carries the batch's latest caption, for every caption and
/// request: a prompt that answers a request (one that is not blank) is the
/// prompt without a caption followed by a blank line and
/// `Latest image hint: ` with the caption, and that uncaptioned prompt ends
/// with `User request: ` and the trimmed request; a general prompt is the
/// uncaptioned one followed by a blank line and `User hint: ` with the
/// caption.
pub proof fn lemma_prompt_carries_caption(c: Seq<char>, q: Seq<char>)
    ensures
        !is_blank(q) ==> analysis_prompt(Some(c), Some(q)) == analysis_prompt(None, Some(q))
            + "\n\nLatest image hint: "@ + c,
        !is_blank(q) ==> ends_with(analysis_prompt(None, Some(q)), "User request: "@ + trimmed(q)),
        is_blank(q) ==> analysis_prompt(Some(c), Some(q)) == analysis_prompt(None, Some(q)) + "\n\nUser hint: "@ + c,
        analysis_prompt(Some(c), None) == analysis_prompt(None, None) + "\n\nUser hint: "@ + c,
{
    reveal_strlit("\n\n");
    reveal_strlit("Latest image hint: ");
    reveal_strlit("\n\nLatest image hint: ");
    reveal_strlit("User hint: ");
    reveal_strlit("\n\nUser hint: ");
    assert("\n\n"@ + "Latest image hint: "@ =~= "\n\nLatest image hint: "@);
    assert("\n\n"@ + "User hint: "@ =~= "\n\nUser hint: "@);
    let sep = "\n\n"@;
    let request = Some(q);
    if !is_blank(q) {
        let base = analysis_prompt(None, request);
        let tail = "User request: "@ + trimmed(q);
        assert(base + Seq::<char>::empty() =~= base);
        assert(analysis_prompt(Some(c), request) =~= base + (sep + "Latest image hint: "@ + c));
        assert(base.len() >= tail.len());
        assert(base.skip(base.len() - tail.len()) =~= tail);
    } else {
        let base = analysis_prompt(None, request);
        assert(analysis_prompt(Some(c), request) =~= base + (sep + "User hint: "@ + c));
    }
    let base = analysis_prompt(None, None);
    assert(analysis_prompt(Some(c), None) =~= base + (sep + "User hint: "@ + c));
}

/// The notice shown for a pending image batch.
pub fn render_pending_image_batch(batch: &PendingImageBatch) -> (r: String)
    ensures
        r@ == pending_batch_text(batch.images@.len(), caption_view(batch.latest_caption)),
{
    let mut r = String::new();
    push_str(&mut r, "Image batch queued for this thread.\nImages: ");
    let n = decimal_string(batch.images.len() as u64);
    push_str(&mut r, n.as_str());
    push_str(&mut r, "\n");
    match &batch.latest_caption {
        Some(caption) => {
            push_str(&mut r, "Latest hint: ");
            push_str(&mut r, caption.as_str());
            push_str(&mut r, "\n");
        },
        None => {},
    }
    push_str(
        &mut r,
        "Press the button below for direct analysis, or send your next text message as the analysis request for this image batch.",
    );
    proof {
        reveal_strlit("\n");
    }
    assert(r@ =~= pending_batch_text(batch.images@.len(), caption_view(batch.latest_caption)));
    r
}

/// The prompt for analysing an image batch, answering `user_prompt` when it
/// holds more than whitespace.
pub fn build_image_analysis_prompt(batch: &PendingImageBatch, user_prompt: Option<&str>) -> (r:
    String)
    ensures
        r@ == analysis_prompt(
            caption_view(batch.latest_caption),
            match user_prompt {
                Some(p) => Some(p@),
                None => None,
            },
        ),
{
    let sep = "\n\n";
    let mut r = String::new();
    let answered = match user_prompt {
        Some(p) => !blank(p),
        None => false,
    };
    if answered {
        let p = user_prompt.unwrap();
        push_str(&mut r, "Analyze the attached image batch and answer the user's request directly.");
        push_str(&mut r, sep);
        push_str(&mut r, "If the user asks a question, answer that question using the images as evidence.");
        push_str(&mut r, sep);
        push_str(&mut r, "If the user specifies a language, answer in that language.");
        push_str(&mut r, sep);
        push_str(&mut r, "User request: ");
        let t = trim(p);
        push_str(&mut r, t.as_str());
        match &batch.latest_caption {
            Some(caption) => {
                push_str(&mut r, sep);
                push_str(&mut r, "Latest image hint: ");
                push_str(&mut r, caption.as_str());
            },
            None => {},
        }
    } else {
        push_str(&mut r, "Please analyze this batch of images.");
        push_str(&mut r, sep);
        push_str(&mut r, "Describe the main subjects, composition, visual style, lighting, mood, and prompt-building cues that matter for later image generation work.");
        match &batch.latest_caption {
            Some(caption) => {
                push_str(&mut r, sep);
                push_str(&mut r, "User hint: ");
                push_str(&mut r, caption.as_str());
            },
            None => {},
        }
    }
    assert(r@ =~= analysis_prompt(
        caption_view(batch.latest_caption),
        match user_prompt {
            Some(p) => Some(p@),
            None => None,
        },
    ));
    r
}

} // verus!
