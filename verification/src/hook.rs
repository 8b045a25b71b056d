//! The post-receive hook that runs on a box.
//!
//! The hook is installed into each bare repo by `aoraki link` and reads its
//! settings from `git config aoraki.*` there, so that one script serves every
//! app. It checks out the exact commit that was pushed, detached, and runs the
//! build under `nohup`, so that a deploy outlives the connection. Its last
//! line, `aoraki: deploy status: …`, is how a deploy is known to have
//! succeeded: the exit code of a push does not tell.

use crate::text::{decimal, has_prefix, occurs_in, show};
use vstd::prelude::*;
use vstd::string::*;

verus! {

/// Version of the hook, which `aoraki doctor` compares with the installed one.
pub const HOOK_VERSION: u32 = 1;

/// The hook up to the line that names its version.
pub const HOOK_HEAD: &'static str = r##"#!/usr/bin/env bash
# aoraki-cli post-receive hook — installed by `aoraki link`; do not edit by hand.
# "##;

/// What stands before the version in the hook.
pub const VERSION_MARK: &'static str = "aoraki-hook-version: ";

/// The hook after the place where its version stands.
pub const HOOK_TAIL: &'static str = r##"
set -uo pipefail
unset GIT_DIR GIT_WORK_TREE

BARE_DIR="$(cd "$(dirname "$0")/.." && pwd)"
cfg() { git --git-dir="$BARE_DIR" config --get "aoraki.$1"; }

APP="$(cfg app)" || { echo "aoraki: hook not configured (aoraki.app missing) — re-run 'aoraki link'" >&2; exit 1; }
BRANCH="$(cfg branch)"
WORKDIR="$(cfg workdir)"
DEPLOY_SCRIPT="$(cfg deployscript)"

LOG_DIR="/data/logs/aoraki-deploys"
if ! mkdir -p "$LOG_DIR" 2>/dev/null; then
  LOG_DIR="$BARE_DIR/deploy-logs"
  mkdir -p "$LOG_DIR"
fi

record() {
  printf '{"app":"%s","branch":"%s","sha":"%s","status":"%s","time":"%s"%s}\n' \
    "$APP" "$BRANCH" "$NEW" "$1" "$(date -u +%Y-%m-%dT%H:%M:%SZ)" "$2" >> "$LOG_DIR/$APP.jsonl"
}

DEPLOY_STATUS=0
while read -r OLD NEW REF; do
  if [ "$REF" != "refs/heads/$BRANCH" ]; then
    echo "aoraki: ignoring $REF (this box deploys refs/heads/$BRANCH)"
    continue
  fi
  SHORT="${NEW:0:7}"

  exec 9>"$LOG_DIR/$APP.lock"
  if ! flock -n 9; then
    echo "aoraki: another deploy of $APP is already running — aborting"
    echo "aoraki: deploy status: failed"
    DEPLOY_STATUS=1
    continue
  fi

  START_S="$(date +%s)"
  record started ""
  echo "aoraki: checking out $SHORT into $WORKDIR"
  if ! git -C "$WORKDIR" fetch -q "$BARE_DIR" "$BRANCH" || ! git -C "$WORKDIR" checkout -q -f "$NEW"; then
    echo "aoraki: checkout failed"
    record failed ',"reason":"checkout"'
    echo "aoraki: deploy status: failed"
    DEPLOY_STATUS=1
    continue
  fi

  RUN_LOG="$LOG_DIR/$APP-$SHORT-$START_S.log"
  STATUS_FILE="$RUN_LOG.status"
  rm -f "$STATUS_FILE"

  echo "aoraki: running $DEPLOY_SCRIPT (BUILD_HASH=$SHORT)"
  nohup bash -c "cd '$WORKDIR' && BUILD_HASH='$SHORT' bash '$DEPLOY_SCRIPT'; echo \$? > '$STATUS_FILE'" \
    > "$RUN_LOG" 2>&1 < /dev/null &
  BUILD_PID=$!

  tail --pid="$BUILD_PID" -n +1 -f "$RUN_LOG" 2>/dev/null
  wait "$BUILD_PID" 2>/dev/null

  EXIT_CODE="$(cat "$STATUS_FILE" 2>/dev/null || echo 1)"
  DURATION=$(( $(date +%s) - START_S ))

  if [ "$EXIT_CODE" = "0" ]; then
    record succeeded ",\"duration_secs\":$DURATION"
    echo "aoraki: deploy status: succeeded (${DURATION}s)"
  else
    record failed ",\"duration_secs\":$DURATION,\"exit_code\":$EXIT_CODE"
    echo "aoraki: deploy status: failed (exit $EXIT_CODE after ${DURATION}s)"
    DEPLOY_STATUS=1
  fi
done

exit $DEPLOY_STATUS
"##;

/// The text of the hook.
pub open spec fn script_text() -> Seq<char> {
    HOOK_HEAD@ + VERSION_MARK@ + decimal(HOOK_VERSION as nat) + HOOK_TAIL@
}

/// The hook, ready to be installed.
pub fn script() -> (r: String)
    ensures
        r@ == script_text(),
{
    HOOK_HEAD.to_string().concat(VERSION_MARK).concat(show(HOOK_VERSION as u64).as_str()).concat(
        HOOK_TAIL,
    )
}

/// The hook names its version, behind the mark by which it is looked for.
pub proof fn script_names_its_version()
    ensures
        occurs_in(VERSION_MARK@ + decimal(HOOK_VERSION as nat), script_text()),
{
    let p = VERSION_MARK@ + decimal(HOOK_VERSION as nat);
    let i = HOOK_HEAD@.len() as int;
    assert(script_text().skip(i).take(p.len() as int) =~= p);
    assert(has_prefix(script_text().skip(i), p));
}

} // verus!
