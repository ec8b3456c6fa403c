//! Pieces of the HTML pages and of the agent's tool replies that carry
//! data: escaping, the table of configured models, and the text a code run
//! answers with.

use vstd::prelude::*;
use crate::lines::{replace_all, replaced};
use crate::llm::{LlmStatus, ModelStatus, ProviderType};
use crate::text::{byte_len, chars_of, concat, owned, push_str, string_from_chars, trim, trim_str};

verus! {

/// `s` with the five HTML-special characters replaced by entities (`&`
/// first, so that entities are not escaped twice).
pub open spec fn escaped(s: Seq<char>) -> Seq<char> {
    replaced(
        replaced(replaced(replaced(replaced(s, "&"@, "&amp;"@), "<"@, "&lt;"@), ">"@, "&gt;"@), "\""@, "&quot;"@),
        "'"@,
        "&#39;"@,
    )
}

fn replace_str(s: &Vec<char>, pat: &str, rep: &str) -> (r: Vec<char>)
    ensures
        r@ == replaced(s@, pat@, rep@),
{
    replace_all(s, &chars_of(pat), &chars_of(rep))
}

/// Escapes text for an HTML attribute or element.
pub fn html_escape(s: &str) -> (r: String)
    ensures
        r@ == escaped(s@),
{
    let a = replace_str(&chars_of(s), "&", "&amp;");
    let b = replace_str(&a, "<", "&lt;");
    let c = replace_str(&b, ">", "&gt;");
    let d = replace_str(&c, "\"", "&quot;");
    let e = replace_str(&d, "'", "&#39;");
    string_from_chars(e.as_slice())
}

/// The badge class of a provider.
pub open spec fn provider_badge(p: ProviderType) -> Seq<char> {
    match p {
        ProviderType::OpenAI => "badge-openai"@,
        ProviderType::Anthropic => "badge-anthropic"@,
        ProviderType::Ollama => "badge-ollama"@,
    }
}

/// The table row of one model.
pub open spec fn model_row(m: ModelStatus) -> Seq<char> {
    "<tr>\n              <td><strong>"@ + m.name@ + "</strong></td>\n              <td><span class=\"badge "@
        + provider_badge(m.provider_type) + "\">"@ + m.provider_type.spec_name()
        + "</span></td>\n              <td><code>"@ + m.model@
        + "</code></td>\n              <td><span class=\"badge "@ + (if m.is_connected {
        "badge-connected"@
    } else {
        "badge-disconnected"@
    }) + "\">"@ + (if m.is_connected {
        "🟢 已连接"@
    } else {
        "🔴 未连接"@
    }) + "</span></td>\n              <td>"@ + (if m.is_default {
        "<span class=\"badge badge-default\">默认</span>"@
    } else {
        Seq::empty()
    }) + "</td>\n            </tr>"@
}

/// The rows of the models, in order.
pub open spec fn model_rows(ms: Seq<ModelStatus>) -> Seq<char>
    decreases ms.len(),
{
    if ms.len() == 0 {
        Seq::empty()
    } else {
        model_rows(ms.drop_last()) + model_row(ms.last())
    }
}

/// Shown instead of the table when no model is configured.
pub open spec fn no_models_notice() -> Seq<char> {
    "<div class=\"empty\">🧠 暂未配置 LLM 模型<br><br>\n        <small>使用 POST /api/llm/configs 添加模型配置</small></div>"@
}

/// The head of the models table.
pub open spec fn models_table_head() -> Seq<char> {
    "<table>\n      <thead><tr>\n        <th>名称</th><th>提供商</th><th>模型</th><th>状态</th><th>默认</th>\n      </tr></thead><tbody>"@
}

fn push_model_row(out: &mut String, m: &ModelStatus)
    ensures
        final(out)@ == old(out)@ + model_row(*m),
{
    push_str(out, "<tr>\n              <td><strong>");
    push_str(out, m.name.as_str());
    push_str(out, "</strong></td>\n              <td><span class=\"badge ");
    push_str(
        out,
        match m.provider_type {
            ProviderType::OpenAI => "badge-openai",
            ProviderType::Anthropic => "badge-anthropic",
            ProviderType::Ollama => "badge-ollama",
        },
    );
    push_str(out, "\">");
    push_str(out, m.provider_type.name());
    push_str(out, "</span></td>\n              <td><code>");
    push_str(out, m.model.as_str());
    push_str(out, "</code></td>\n              <td><span class=\"badge ");
    push_str(
        out,
        if m.is_connected {
            "badge-connected"
        } else {
            "badge-disconnected"
        },
    );
    push_str(out, "\">");
    push_str(
        out,
        if m.is_connected {
            "🟢 已连接"
        } else {
            "🔴 未连接"
        },
    );
    push_str(out, "</span></td>\n              <td>");
    if m.is_default {
        push_str(out, "<span class=\"badge badge-default\">默认</span>");
    }
    push_str(out, "</td>\n            </tr>");
    proof {
        reveal_strlit("badge-openai");
        reveal_strlit("badge-anthropic");
        reveal_strlit("badge-ollama");
        reveal_strlit("badge-connected");
        reveal_strlit("badge-disconnected");
        reveal_strlit("🟢 已连接");
        reveal_strlit("🔴 未连接");
        reveal_strlit("<span class=\"badge badge-default\">默认</span>");
    }
    assert(final(out)@ =~= old(out)@ + model_row(*m));
}

/// The dashboard's table of configured models (a notice when there are
/// none).
pub fn llm_rows_html(status: &LlmStatus) -> (r: String)
    ensures
        r@ == if status.models@.len() == 0 {
            no_models_notice()
        } else {
            models_table_head() + model_rows(status.models@) + "</tbody></table>"@
        },
{
    if status.models.len() == 0 {
        return owned(
            "<div class=\"empty\">🧠 暂未配置 LLM 模型<br><br>\n        <small>使用 POST /api/llm/configs 添加模型配置</small></div>",
        );
    }
    let mut rows = owned(
        "<table>\n      <thead><tr>\n        <th>名称</th><th>提供商</th><th>模型</th><th>状态</th><th>默认</th>\n      </tr></thead><tbody>",
    );
    let ghost head = rows@;
    let mut i: usize = 0;
    while i < status.models.len()
        invariant
            i <= status.models.len(),
            rows@ == head + model_rows(status.models@.take(i as int)),
        decreases status.models.len() - i,
    {
        push_model_row(&mut rows, &status.models[i]);
        assert(status.models@.take(i + 1).drop_last() =~= status.models@.take(i as int));
        i = i + 1;
    }
    assert(status.models@.take(status.models.len() as int) =~= status.models@);
    push_str(&mut rows, "</tbody></table>");
    rows
}

/// The answer to a code run from what it printed: `(无输出)` when nothing,
/// the trimmed standard error behind `(stderr): ` when only that, the
/// trimmed output when no error text, and both otherwise.
pub open spec fn run_reply(stdout: Seq<char>, stderr: Seq<char>) -> Seq<char> {
    if stdout.len() == 0 && stderr.len() == 0 {
        "(无输出)"@
    } else if stdout.len() == 0 {
        "(stderr): "@ + trim(stderr)
    } else if stderr.len() == 0 {
        trim(stdout)
    } else {
        trim(stdout) + "\n(stderr): "@ + trim(stderr)
    }
}

/// The answer to a Python or browser run from what it printed.
pub fn run_output(stdout: &str, stderr: &str) -> (r: String)
    ensures
        r@ == run_reply(stdout@, stderr@),
{
    let out_empty = byte_len(stdout) == 0;
    let err_empty = byte_len(stderr) == 0;
    if out_empty && err_empty {
        owned("(无输出)")
    } else if out_empty {
        concat("(stderr): ", trim_str(stderr).as_str())
    } else if err_empty {
        trim_str(stdout)
    } else {
        let mut s = trim_str(stdout);
        push_str(&mut s, "\n(stderr): ");
        push_str(&mut s, trim_str(stderr).as_str());
        s
    }
}

/// The answer to a shell run: its trimmed output, or `(无输出)`.
pub fn shell_output(stdout: &str) -> (r: String)
    ensures
        r@ == if stdout@.len() == 0 { "(无输出)"@ } else { trim(stdout@) },
{
    if byte_len(stdout) == 0 {
        owned("(无输出)")
    } else {
        trim_str(stdout)
    }
}

} // verus!
