//! Injection configuration and its validation rules.
use vstd::prelude::*;
use crate::chars::{is_blank, spec_is_blank};

verus! {

#[derive(Debug, Clone, PartialEq, Eq)]
pub struct AppConfig {
    pub title_keyword: String,
    pub batch_size: usize,
    pub batch_delay_ms: u64,
    pub character_limit: usize,
}

#[derive(Debug, Clone, PartialEq, Eq)]
pub struct ConfigViolation {
    pub field: &'static str,
    pub message: String,
}

/// The violations of a configuration, as (field, message) pairs, in the
/// order title keyword, batch size, batch delay, character limit.
pub open spec fn config_violations(c: AppConfig) -> Seq<(Seq<char>, Seq<char>)> {
    let title: Seq<(Seq<char>, Seq<char>)> = if spec_is_blank(c.title_keyword@) {
        seq![("titleKeyword"@, "窗口标题关键词不能为空"@)]
    } else {
        Seq::empty()
    };
    let batch: Seq<(Seq<char>, Seq<char>)> = if !(1 <= c.batch_size <= 20) {
        seq![("batchSize"@, "每批字符数必须在 1 到 20 之间"@)]
    } else {
        Seq::empty()
    };
    let delay: Seq<(Seq<char>, Seq<char>)> = if !(10 <= c.batch_delay_ms <= 500) {
        seq![("batchDelayMs"@, "批间延迟必须在 10 到 500 毫秒之间"@)]
    } else {
        Seq::empty()
    };
    let limit: Seq<(Seq<char>, Seq<char>)> = if !(1 <= c.character_limit <= 500) {
        seq![("characterLimit"@, "字符上限必须在 1 到 500 之间"@)]
    } else {
        Seq::empty()
    };
    title + batch + delay + limit
}

pub open spec fn violations_view(v: Seq<ConfigViolation>) -> Seq<(Seq<char>, Seq<char>)> {
    Seq::new(v.len(), |i: int| (v[i].field@, v[i].message@))
}

fn push_violation(
    violations: &mut Vec<ConfigViolation>,
    field: &'static str,
    message: &str,
)
    ensures
        violations_view(final(violations)@) == violations_view(old(violations)@).push((field@, message@)),
{
    let ghost before = violations@;
    violations.push(ConfigViolation { field, message: message.to_owned() });
    assert(violations_view(violations@) =~= violations_view(before).push((field@, message@)));
}

impl AppConfig {
    /// Keyword "HELLDIVERS", 5 characters per batch, 50 ms between batches,
    /// at most 100 characters; it violates no rule.
    pub fn default_config() -> (r: Self)
        ensures
            r.title_keyword@ == "HELLDIVERS"@,
            r.batch_size == 5,
            r.batch_delay_ms == 50,
            r.character_limit == 100,
            config_violations(r).len() == 0,
    {
        proof {
            reveal_strlit("HELLDIVERS");
            assert(!crate::chars::spec_is_whitespace("HELLDIVERS"@[0]));
        }
        AppConfig {
            title_keyword: "HELLDIVERS".to_owned(),
            batch_size: 5,
            batch_delay_ms: 50,
            character_limit: 100,
        }
    }

    /// Ok when nothing is violated, else every violation in field order.
    pub fn validate(&self) -> (r: Result<(), Vec<ConfigViolation>>)
        ensures
            r is Ok <==> config_violations(*self).len() == 0,
            r matches Err(v) ==> violations_view(v@) == config_violations(*self),
    {
        let mut violations: Vec<ConfigViolation> = Vec::new();
        let ghost c = *self;
        let ghost title: Seq<(Seq<char>, Seq<char>)> = if spec_is_blank(c.title_keyword@) {
            seq![("titleKeyword"@, "窗口标题关键词不能为空"@)]
        } else {
            Seq::empty()
        };
        let ghost batch: Seq<(Seq<char>, Seq<char>)> = if !(1 <= c.batch_size <= 20) {
            seq![("batchSize"@, "每批字符数必须在 1 到 20 之间"@)]
        } else {
            Seq::empty()
        };
        let ghost delay: Seq<(Seq<char>, Seq<char>)> = if !(10 <= c.batch_delay_ms <= 500) {
            seq![("batchDelayMs"@, "批间延迟必须在 10 到 500 毫秒之间"@)]
        } else {
            Seq::empty()
        };
        assert(violations_view(violations@) =~= Seq::<(Seq<char>, Seq<char>)>::empty());
        if is_blank(self.title_keyword.as_str()) {
            push_violation(&mut violations, "titleKeyword", "窗口标题关键词不能为空");
        }
        assert(violations_view(violations@) =~= title);
        if !(1 <= self.batch_size && self.batch_size <= 20) {
            push_violation(&mut violations, "batchSize", "每批字符数必须在 1 到 20 之间");
        }
        assert(violations_view(violations@) =~= title + batch);
        if !(10 <= self.batch_delay_ms && self.batch_delay_ms <= 500) {
            push_violation(&mut violations, "batchDelayMs", "批间延迟必须在 10 到 500 毫秒之间");
        }
        assert(violations_view(violations@) =~= title + batch + delay);
        if !(1 <= self.character_limit && self.character_limit <= 500) {
            push_violation(&mut violations, "characterLimit", "字符上限必须在 1 到 500 之间");
        }
        assert(violations_view(violations@) =~= config_violations(*self));
        if violations.len() == 0 {
            Ok(())
        } else {
            Err(violations)
        }
    }
}

impl Default for AppConfig {
    fn default() -> (r: Self)
        ensures
            r.title_keyword@ == "HELLDIVERS"@,
            r.batch_size == 5,
            r.batch_delay_ms == 50,
            r.character_limit == 100,
            config_violations(r).len() == 0,
    {
        AppConfig::default_config()
    }
}

} // verus!
