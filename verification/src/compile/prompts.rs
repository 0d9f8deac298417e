//! Prompt texts sent to the language model while compiling and querying the wiki.
use vstd::prelude::*;

use crate::text::{
    chars_of, decimal, join, join_strings, push_decimal, string_of, string_of_range, views,
};

verus! {

/// Most source characters handed to the compiler model (leaves room for the JSON reply).
pub const MAX_COMPILE_CHARS: usize = 12000;

/// `content` as the compiler model sees it: unchanged up to `MAX_COMPILE_CHARS`
/// characters, else its first `MAX_COMPILE_CHARS` characters and a note that counts the rest.
pub open spec fn clipped(content: Seq<char>) -> Seq<char> {
    if content.len() <= MAX_COMPILE_CHARS {
        content
    } else {
        content.take(MAX_COMPILE_CHARS as int) + "\n\n[... "@ + decimal(
            (content.len() - MAX_COMPILE_CHARS) as nat,
        ) + " chars omitted — summarize from this excerpt ...]"@
    }
}

/// Clips `content` to the compiler model's budget, on character boundaries.
pub fn clip_content(content: &str) -> (r: String)
    ensures
        r@ == clipped(content@),
{
    let v = chars_of(content);
    if v.len() <= MAX_COMPILE_CHARS {
        return string_of(&v);
    }
    let mut r = string_of_range(&v, 0, MAX_COMPILE_CHARS);
    r.append("\n\n[... ");
    push_decimal(&mut r, (v.len() - MAX_COMPILE_CHARS) as u64);
    r.append(" chars omitted — summarize from this excerpt ...]");
    r
}

/// System prompt: the wiki schema and the language to write in.
pub fn system_schema(language: &str, schema_md: &str) -> (r: String)
    ensures
        r@ == "You are everythingKB's wiki compilation agent for a personal knowledge base.\n\n"@
            + schema_md@ + "\n\nWrite all content in "@ + language@
            + ".\nUse OKF markdown links to connect related pages (e.g. [attention](concepts/attention.md)).\nReturn ONLY valid JSON when asked for JSON."@,
{
    let mut r = String::from_str(
        "You are everythingKB's wiki compilation agent for a personal knowledge base.\n\n",
    );
    r.append(schema_md);
    r.append("\n\nWrite all content in ");
    r.append(language);
    r.append(
        ".\nUse OKF markdown links to connect related pages (e.g. [attention](concepts/attention.md)).\nReturn ONLY valid JSON when asked for JSON.",
    );
    r
}

/// Prompt asking a vision model to describe an image file.
pub fn image_summary_user(doc_name: &str, path: &str) -> (r: String)
    ensures
        r@ == "Image file: "@ + doc_name@ + "\nPath: "@ + path@
            + "\n\nDescribe what you see in this image for a personal knowledge base.\nInclude: main subjects, text visible in the image, setting, notable details, and anything worth remembering later.\nWrite in clear Markdown paragraphs. No JSON."@,
{
    let mut r = String::from_str("Image file: ");
    r.append(doc_name);
    r.append("\nPath: ");
    r.append(path);
    r.append(
        "\n\nDescribe what you see in this image for a personal knowledge base.\nInclude: main subjects, text visible in the image, setting, notable details, and anything worth remembering later.\nWrite in clear Markdown paragraphs. No JSON.",
    );
    r
}

/// Prompt asking for the JSON summary of a new document (its text clipped).
pub fn summary_user(doc_name: &str, content: &str) -> (r: String)
    ensures
        r@ == "New document: "@ + doc_name@ + "\n\nFull text:\n"@ + clipped(content@)
            + "\n\nWrite a summary page for this document in Markdown.\n\nReturn a JSON object with two keys:\n- \"description\": A single sentence (under 100 chars) describing the document's main contribution\n- \"content\": The full summary in Markdown. Include key concepts, findings, ideas, and markdown links to concepts that could become cross-document concept pages (e.g. [topic](concepts/topic-slug.md))\n- \"private\": true if the document contains sensitive or personal information (PII, medical/health records, financial/tax data, credentials, legal ID, intimate personal details); false otherwise\n\nReturn ONLY valid JSON, no fences."@,
{
    let clipped_text = clip_content(content);
    let mut r = String::from_str("New document: ");
    r.append(doc_name);
    r.append("\n\nFull text:\n");
    r.append(clipped_text.as_str());
    r.append(
        "\n\nWrite a summary page for this document in Markdown.\n\nReturn a JSON object with two keys:\n- \"description\": A single sentence (under 100 chars) describing the document's main contribution\n- \"content\": The full summary in Markdown. Include key concepts, findings, ideas, and markdown links to concepts that could become cross-document concept pages (e.g. [topic](concepts/topic-slug.md))\n- \"private\": true if the document contains sensitive or personal information (PII, medical/health records, financial/tax data, credentials, legal ID, intimate personal details); false otherwise\n\nReturn ONLY valid JSON, no fences.",
    );
    r
}

/// Prompt asking for the plan of concept and entity pages to create, update or link.
pub fn concepts_plan_user(concept_briefs: &str, entity_briefs: &str, entity_types: &Vec<String>) -> (r: String)
    ensures
        r@ == "Based on the summary above, decide how to update the wiki's CONCEPT pages and ENTITY pages.\n\nA CONCEPT is an abstract, recurring idea/pattern/mechanism. An ENTITY is a specific named thing.\n\nExisting concept pages:\n"@
            + concept_briefs@ + "\n\nExisting entity pages:\n"@ + entity_briefs@
            + "\n\nReturn a JSON object with two top-level keys, \"concepts\" and \"entities\".\n\n\"concepts\" is an object with:\n1. \"create\" — new concepts. Array of {\"name\": \"concept-slug\", \"title\": \"Title\"}\n2. \"update\" — existing concepts with significant new info. Same shape.\n3. \"related\" — existing concept slugs to cross-link only. Array of strings.\n\n\"entities\" is an object with the same three keys, but create/update objects add a \"type\" field, one of: "@
            + join(views(entity_types@), ", "@)
            + ".\n\nRules:\n- For the first few documents, create 2-3 foundational concepts at most.\n- Create an ENTITY page only when central or likely to recur.\n- Prefer \"update\" over \"create\" for existing pages.\n- \"related\" is lightweight cross-linking only.\n\nReturn ONLY valid JSON, no fences."@,
{
    let types = join_strings(entity_types, ", ");
    let mut r = String::from_str(
        "Based on the summary above, decide how to update the wiki's CONCEPT pages and ENTITY pages.\n\nA CONCEPT is an abstract, recurring idea/pattern/mechanism. An ENTITY is a specific named thing.\n\nExisting concept pages:\n",
    );
    r.append(concept_briefs);
    r.append("\n\nExisting entity pages:\n");
    r.append(entity_briefs);
    r.append(
        "\n\nReturn a JSON object with two top-level keys, \"concepts\" and \"entities\".\n\n\"concepts\" is an object with:\n1. \"create\" — new concepts. Array of {\"name\": \"concept-slug\", \"title\": \"Title\"}\n2. \"update\" — existing concepts with significant new info. Same shape.\n3. \"related\" — existing concept slugs to cross-link only. Array of strings.\n\n\"entities\" is an object with the same three keys, but create/update objects add a \"type\" field, one of: ",
    );
    r.append(types.as_str());
    r.append(
        ".\n\nRules:\n- For the first few documents, create 2-3 foundational concepts at most.\n- Create an ENTITY page only when central or likely to recur.\n- Prefer \"update\" over \"create\" for existing pages.\n- \"related\" is lightweight cross-linking only.\n\nReturn ONLY valid JSON, no fences.",
    );
    r
}

/// Prompt listing the valid link targets of the wiki.
pub fn known_targets_user(targets: &str) -> (r: String)
    ensures
        r@ == "The wiki currently contains these pages — the COMPLETE list of valid markdown link targets:\n\n"@
            + targets@
            + "\n\nRules for cross-links in all subsequent responses:\n- Use `[label](summaries/Y.md)`, `[label](concepts/X.md)`, `[label](entities/Z.md)`.\n- X/Y/Z must appear in the list above.\n- Do NOT invent new link targets; use plain text instead."@,
{
    let mut r = String::from_str(
        "The wiki currently contains these pages — the COMPLETE list of valid markdown link targets:\n\n",
    );
    r.append(targets);
    r.append(
        "\n\nRules for cross-links in all subsequent responses:\n- Use `[label](summaries/Y.md)`, `[label](concepts/X.md)`, `[label](entities/Z.md)`.\n- X/Y/Z must appear in the list above.\n- Do NOT invent new link targets; use plain text instead.",
    );
    r
}

/// The instruction line of a concept page prompt.
pub open spec fn concept_instruction(update: bool) -> Seq<char> {
    if update {
        "Integrate new information from the document summary above into this concept."@
    } else {
        "Create a new concept page from the document summary above."@
    }
}

/// Prompt asking for a concept page (new, or updated from the summary).
pub fn concept_page_user(doc_name: &str, title: &str, update: bool) -> (r: String)
    ensures
        r@ == "Write the concept page for: "@ + title@ + "\n\nThis concept relates to document \""@
            + doc_name@ + "\" summarized above.\n"@ + concept_instruction(update)
            + "\n\nReturn JSON with keys \"description\" (one sentence) and \"content\" (full Markdown with OKF links).\nReturn ONLY valid JSON."@,
{
    let mut r = String::from_str("Write the concept page for: ");
    r.append(title);
    r.append("\n\nThis concept relates to document \"");
    r.append(doc_name);
    r.append("\" summarized above.\n");
    if update {
        r.append("Integrate new information from the document summary above into this concept.");
    } else {
        r.append("Create a new concept page from the document summary above.");
    }
    r.append(
        "\n\nReturn JSON with keys \"description\" (one sentence) and \"content\" (full Markdown with OKF links).\nReturn ONLY valid JSON.",
    );
    r
}

/// Prompt asking to rewrite an existing concept page with the new document.
pub fn concept_update_user(doc_name: &str, title: &str, existing: &str) -> (r: String)
    ensures
        r@ == "Update the concept page for: "@ + title@ + "\n\nCurrent content:\n"@ + existing@
            + "\n\nIntegrate new information from document \""@ + doc_name@
            + "\" (summarized above). Rewrite the full page — do not just append.\n\nReturn JSON with keys \"description\" and \"content\".\nReturn ONLY valid JSON."@,
{
    let mut r = String::from_str("Update the concept page for: ");
    r.append(title);
    r.append("\n\nCurrent content:\n");
    r.append(existing);
    r.append("\n\nIntegrate new information from document \"");
    r.append(doc_name);
    r.append(
        "\" (summarized above). Rewrite the full page — do not just append.\n\nReturn JSON with keys \"description\" and \"content\".\nReturn ONLY valid JSON.",
    );
    r
}

/// Prompt asking for a new entity page.
pub fn entity_page_user(doc_name: &str, title: &str, entity_type: &str) -> (r: String)
    ensures
        r@ == "Write the entity page for: "@ + title@ + " (type: "@ + entity_type@
            + ")\n\nThis entity relates to document \""@ + doc_name@
            + "\" summarized above.\n\nReturn JSON with keys \"description\", \"type\", and \"content\" (full Markdown).\nReturn ONLY valid JSON."@,
{
    let mut r = String::from_str("Write the entity page for: ");
    r.append(title);
    r.append(" (type: ");
    r.append(entity_type);
    r.append(")\n\nThis entity relates to document \"");
    r.append(doc_name);
    r.append(
        "\" summarized above.\n\nReturn JSON with keys \"description\", \"type\", and \"content\" (full Markdown).\nReturn ONLY valid JSON.",
    );
    r
}

/// Prompt asking to rewrite an existing entity page with the new document.
pub fn entity_update_user(doc_name: &str, title: &str, entity_type: &str, existing: &str) -> (r: String)
    ensures
        r@ == "Update the entity page for: "@ + title@ + " (type: "@ + entity_type@
            + ")\n\nCurrent content:\n"@ + existing@ + "\n\nIntegrate new facts from document \""@
            + doc_name@
            + "\". Rewrite the full page.\n\nReturn JSON with keys \"description\", \"type\", and \"content\".\nReturn ONLY valid JSON."@,
{
    let mut r = String::from_str("Update the entity page for: ");
    r.append(title);
    r.append(" (type: ");
    r.append(entity_type);
    r.append(")\n\nCurrent content:\n");
    r.append(existing);
    r.append("\n\nIntegrate new facts from document \"");
    r.append(doc_name);
    r.append(
        "\". Rewrite the full page.\n\nReturn JSON with keys \"description\", \"type\", and \"content\".\nReturn ONLY valid JSON.",
    );
    r
}

/// Prompt asking to rewrite the draft summary against the final wiki.
pub fn summary_rewrite_user() -> (r: String)
    ensures
        r@ == "Rewrite the summary you wrote above into a final version consistent with concept pages now in the wiki (per the whitelist message).\n\nPreserve factual claims. Fix cross-links per whitelist rules.\n\nReturn ONLY the rewritten Markdown (no JSON, no fences)."@,
{
    String::from_str(
        "Rewrite the summary you wrote above into a final version consistent with concept pages now in the wiki (per the whitelist message).\n\nPreserve factual claims. Fix cross-links per whitelist rules.\n\nReturn ONLY the rewritten Markdown (no JSON, no fences).",
    )
}

/// Prompt asking for an overview of a long document from its page-index summary.
pub fn long_doc_summary_user(doc_name: &str, doc_id: &str, content: &str) -> (r: String)
    ensures
        r@ == "This is a PageIndex summary for long document \""@ + doc_name@ + "\" (doc_id: "@
            + doc_id@ + "):\n\n"@ + content@
            + "\n\nBased on this structured summary, write a concise overview capturing key themes."@,
{
    let mut r = String::from_str("This is a PageIndex summary for long document \"");
    r.append(doc_name);
    r.append("\" (doc_id: ");
    r.append(doc_id);
    r.append("):\n\n");
    r.append(content);
    r.append("\n\nBased on this structured summary, write a concise overview capturing key themes.");
    r
}

/// Prompt answering a question from the wiki context, with citations.
pub fn query_user(question: &str, wiki_context: &str) -> (r: String)
    ensures
        r@ == "Answer the question using ONLY the wiki context below.\nWhen you use a fact, cite the wiki page inline (e.g. [paper-name](summaries/paper-name.md)).\nEnd with a **Sources** section listing every wiki page you used and any `Resource:` paths shown in the context. Omit **Sources** only if the context has nothing relevant.\n\nWiki context:\n"@
            + wiki_context@ + "\n\nQuestion: "@ + question@,
{
    let mut r = String::from_str(
        "Answer the question using ONLY the wiki context below.\nWhen you use a fact, cite the wiki page inline (e.g. [paper-name](summaries/paper-name.md)).\nEnd with a **Sources** section listing every wiki page you used and any `Resource:` paths shown in the context. Omit **Sources** only if the context has nothing relevant.\n\nWiki context:\n",
    );
    r.append(wiki_context);
    r.append("\n\nQuestion: ");
    r.append(question);
    r
}

/// Prompt answering a chat turn from the history and the wiki context.
pub fn chat_user(history: &str, wiki_context: &str, question: &str) -> (r: String)
    ensures
        r@ == "Conversation history:\n"@ + history@
            + "\n\nAnswer using ONLY the wiki context below.\nWhen you use a fact, cite the wiki page inline (e.g. [paper-name](summaries/paper-name.md)).\nEnd with a **Sources** section listing every wiki page you used and any `Resource:` paths shown in the context. Omit **Sources** only if the context has nothing relevant.\n\nWiki context:\n"@
            + wiki_context@ + "\n\nUser: "@ + question@,
{
    let mut r = String::from_str("Conversation history:\n");
    r.append(history);
    r.append(
        "\n\nAnswer using ONLY the wiki context below.\nWhen you use a fact, cite the wiki page inline (e.g. [paper-name](summaries/paper-name.md)).\nEnd with a **Sources** section listing every wiki page you used and any `Resource:` paths shown in the context. Omit **Sources** only if the context has nothing relevant.\n\nWiki context:\n",
    );
    r.append(wiki_context);
    r.append("\n\nUser: ");
    r.append(question);
    r
}

/// Prompt asking which sections of the long-document trees to read.
pub fn tree_select_user(question: &str, trees: &str) -> (r: String)
    ensures
        r@ == "Given these document trees, select which sections to read to answer the question.\n\nTrees:\n"@
            + trees@ + "\n\nQuestion: "@ + question@
            + "\n\nReturn JSON: {\"selections\": [{\"doc_name\": \"...\", \"title\": \"section title\"}]}\nReturn ONLY valid JSON."@,
{
    let mut r = String::from_str(
        "Given these document trees, select which sections to read to answer the question.\n\nTrees:\n",
    );
    r.append(trees);
    r.append("\n\nQuestion: ");
    r.append(question);
    r.append(
        "\n\nReturn JSON: {\"selections\": [{\"doc_name\": \"...\", \"title\": \"section title\"}]}\nReturn ONLY valid JSON.",
    );
    r
}

/// The plan request after the document summary it is about.
pub fn plan_request(summary: &str, plan_user: &str) -> (r: String)
    ensures
        r@ == "Document summary:\n"@ + summary@ + "\n\n"@ + plan_user@,
{
    let mut r = String::from_str("Document summary:\n");
    r.append(summary);
    r.append("\n\n");
    r.append(plan_user);
    r
}

/// A page request after the summary that gives it context.
pub fn page_request(summary: &str, user: &str) -> (r: String)
    ensures
        r@ == "Summary context:\n"@ + summary@ + "\n\n"@ + user@,
{
    let mut r = String::from_str("Summary context:\n");
    r.append(summary);
    r.append("\n\n");
    r.append(user);
    r
}

/// The request for the final summary after the draft it rewrites.
pub fn rewrite_request(draft: &str) -> (r: String)
    ensures
        r@ == "Document summary draft:\n"@ + draft@
            + "\n\n"@ + "Rewrite the summary you wrote above into a final version consistent with concept pages now in the wiki (per the whitelist message).\n\nPreserve factual claims. Fix cross-links per whitelist rules.\n\nReturn ONLY the rewritten Markdown (no JSON, no fences)."@,
{
    let mut r = String::from_str("Document summary draft:\n");
    r.append(draft);
    r.append("\n\n");
    let rw = summary_rewrite_user();
    r.append(rw.as_str());
    r
}

} // verus!
