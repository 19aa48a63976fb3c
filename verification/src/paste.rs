//! Reading the result of a browser clipboard request.

use vstd::prelude::*;

verus! {

/// What the page's clipboard helper answered: the pasted text, a refusal, or nothing
/// yet. Text wins over a refusal flag; a refusal counts only when reported as `false`.
pub fn classify_browser_paste(text: Option<String>, flag: Option<bool>) -> (result: Option<
    Result<String, ()>,
>)
    ensures
        text is Some ==> result == Some(Ok::<String, ()>(text->0)),
        text is None && flag == Some(false) ==> result == Some(Err::<String, ()>(())),
        text is None && flag != Some(false) ==> result is None,
{
    match text {
        Some(pasted) => Some(Ok(pasted)),
        None => {
            if flag == Some(false) {
                Some(Err(()))
            } else {
                None
            }
        },
    }
}

} // verus!
