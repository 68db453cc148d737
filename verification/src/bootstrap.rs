//! PHP bootstrap assembly: the application's own bootstrap code, with the
//! `turbine_*()` helper functions of each enabled primitive in front.
use vstd::prelude::*;

use crate::features::{
    php_turbine_log_function, php_turbine_table_functions, php_turbine_task_functions,
    php_turbine_ws_functions, PHP_LOG_FUNCTION, PHP_TABLE_FUNCTIONS, PHP_TASK_FUNCTIONS,
    PHP_WS_FUNCTIONS,
};
use crate::text::{chars_of, push_all, string_of};

verus! {

/// Which primitives are enabled.
pub struct BootstrapFeatures {
    pub structured_logging: bool,
    pub shared_table: bool,
    pub task_queue: bool,
    pub websocket: bool,
}

/// `code` with `block` in front when `on`.
pub open spec fn prepend_if(on: bool, block: Seq<char>, code: Seq<char>) -> Seq<char> {
    if on {
        block + code
    } else {
        code
    }
}

/// The final bootstrap: each enabled helper block prepended in turn
/// (logging, table, tasks, WebSocket), so the last one prepended comes
/// first.
pub open spec fn bootstrap_of(f: BootstrapFeatures, app: Seq<char>) -> Seq<char> {
    prepend_if(
        f.websocket,
        PHP_WS_FUNCTIONS@,
        prepend_if(
            f.task_queue,
            PHP_TASK_FUNCTIONS@,
            prepend_if(f.shared_table, PHP_TABLE_FUNCTIONS@, prepend_if(f.structured_logging, PHP_LOG_FUNCTION@, app)),
        ),
    )
}

fn prepend(block: &str, code: Vec<char>) -> (r: Vec<char>)
    ensures
        r@ == block@ + code@,
{
    let mut r = chars_of(block);
    push_all(&mut r, code.as_slice());
    r
}

/// Builds the final PHP bootstrap from the application's bootstrap.
pub fn build_php_bootstrap(features: &BootstrapFeatures, app_bootstrap: String) -> (r: String)
    ensures
        r@ == bootstrap_of(*features, app_bootstrap@),
{
    let mut out = chars_of(app_bootstrap.as_str());
    if features.structured_logging {
        out = prepend(php_turbine_log_function(), out);
    }
    if features.shared_table {
        out = prepend(php_turbine_table_functions(), out);
    }
    if features.task_queue {
        out = prepend(php_turbine_task_functions(), out);
    }
    if features.websocket {
        out = prepend(php_turbine_ws_functions(), out);
    }
    string_of(out.as_slice())
}

} // verus!
