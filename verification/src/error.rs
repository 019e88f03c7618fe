use vstd::prelude::*;
use vstd::string::*;

verus! {

#[verifier::external_type_specification]
#[verifier::external_body]
pub struct ExAnyhowError(anyhow::Error);

/// The error report text: the message, each cause after it, then the stack
/// backtrace.
pub open spec fn error_report(
    message: Seq<char>,
    causes: Seq<Seq<char>>,
    backtrace: Seq<char>,
) -> Seq<char> {
    message + caused_by(causes) + "\nstack backtrace:\n"@ + backtrace
}

/// Each cause, introduced by ", caused by: ", outermost first.
pub open spec fn caused_by(causes: Seq<Seq<char>>) -> Seq<char>
    decreases causes.len(),
{
    if causes.len() == 0 {
        Seq::empty()
    } else {
        caused_by(causes.drop_last()) + ", caused by: "@ + causes.last()
    }
}

/// The report of an error with this message, these causes (outermost first)
/// and this backtrace.
pub fn compose_error_report(message: &str, causes: &Vec<String>, backtrace: &str) -> (r: String)
    ensures
        r@ == error_report(message@, causes@.map_values(|c: String| c@), backtrace@),
{
    let ghost texts = causes@.map_values(|c: String| c@);
    let mut r = String::from_str(message);
    let n = causes.len();
    let mut i: usize = 0;
    assert(texts.take(0) =~= Seq::<Seq<char>>::empty());
    while i < n
        invariant
            n == causes@.len(),
            texts == causes@.map_values(|c: String| c@),
            i <= n,
            r@ == message@ + caused_by(texts.take(i as int)),
        decreases n - i,
    {
        assert(texts.take(i + 1).drop_last() =~= texts.take(i as int));
        r.append(", caused by: ");
        r.append(causes[i].as_str());
        i = i + 1;
    }
    assert(texts.take(n as int) =~= texts);
    r.append("\nstack backtrace:\n");
    r.append(backtrace);
    r
}

/// The texts of an error chain after its first one: the causes of the error
/// that heads it, outermost first.
pub open spec fn causes_of(chain: Seq<Seq<char>>) -> Seq<Seq<char>> {
    if chain.len() == 0 {
        chain
    } else {
        chain.drop_first()
    }
}

/// The report of an error with this message, whose error chain (the error
/// itself first, then its causes, outermost first) renders as `chain`, with
/// this backtrace.
pub fn chain_report(message: &str, chain: Vec<String>, backtrace: &str) -> (r: String)
    ensures
        r@ == error_report(
            message@,
            causes_of(chain@.map_values(|c: String| c@)),
            backtrace@,
        ),
{
    let ghost texts = chain@.map_values(|c: String| c@);
    let mut causes = chain;
    if causes.len() > 0 {
        let ghost all = causes@;
        causes.remove(0);
        assert(causes@.map_values(|c: String| c@) =~= texts.drop_first()) by {
            assert(causes@ =~= all.drop_first());
        }
    }
    compose_error_report(message, &causes, backtrace)
}

/// `anyhow::Error`'s `Display` (through `to_string`): the outermost message.
/// It is whatever the wrapped error's own `Display` writes, which may differ
/// from call to call, so nothing is claimed of it.
#[verifier::external_body]
fn error_message(e: &anyhow::Error) -> String {
    e.to_string()
}

/// `anyhow::Error::chain`, each error rendered with `to_string`. The chain
/// starts with the error itself, so it holds at least one text; the texts
/// come from the errors' own `Display` and are not otherwise claimed.
#[verifier::external_body]
fn error_chain(e: &anyhow::Error) -> (r: Vec<String>)
    ensures
        r@.len() >= 1,
{
    e.chain().map(|c| c.to_string()).collect()
}

/// `anyhow::Error::backtrace`, rendered. It depends on where the error was
/// made and on the environment, so nothing is claimed of it.
#[verifier::external_body]
fn error_backtrace(e: &anyhow::Error) -> String {
    e.backtrace().to_string()
}

/// A descriptive report of an `anyhow` error: its message, each cause, and
/// its stack backtrace. The texts come from the wrapped errors; whatever they
/// are, the report is built from them as `chain_report` says.
pub fn format_anyhow(e: &anyhow::Error) -> (r: String)
    ensures
        exists|message: Seq<char>, chain: Seq<Seq<char>>, backtrace: Seq<char>|
            chain.len() >= 1 && r@ == #[trigger] error_report(
                message,
                causes_of(chain),
                backtrace,
            ),
{
    let message = error_message(e);
    let chain = error_chain(e);
    let ghost texts = chain@.map_values(|c: String| c@);
    let backtrace = error_backtrace(e);
    let r = chain_report(message.as_str(), chain, backtrace.as_str());
    assert(r@ == error_report(message@, causes_of(texts), backtrace@));
    r
}

} // verus!
