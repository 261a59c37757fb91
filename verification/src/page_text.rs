//! The text of the page, with a placeholder where the version stands.
use vstd::prelude::*;

verus! {

/// How the page begins, up to its style sheet.
pub const HEAD: &'static str = r##"<!doctype html>
<html lang="zh-CN">
<head>
  <meta charset="utf-8">
  <meta name="viewport" content="width=device-width, initial-scale=1, viewport-fit=cover">
  <title>网络测速</title>
  <style>
"##;

/// The style sheet.
pub const STYLE: &'static str = r##"    :root {
      --bg: #faf7f2;
      --card: #ffffff;
      --line: #eee7df;
      --text: #3d3530;
      --muted: #8b8178;
      --accent: #da7756;
      --accent-hover: #c4633f;
      --danger: #c43d3d;
      --success: #3f8f5f;
      --sans-stack: system-ui, -apple-system, "Segoe UI", "PingFang SC", "Microsoft YaHei", sans-serif;
      --mono-stack: ui-monospace, Menlo, Consolas, monospace;
      --number-stack: ui-monospace, "SFMono-Regular", Menlo, Monaco, "Cascadia Mono", "Segoe UI Mono", Consolas, "Liberation Mono", monospace;
    }

    html {
      min-height: 100%;
      scrollbar-gutter: stable;
    }

    body {
      height: 100dvh;
      margin: 0;
      padding: 22px;
      box-sizing: border-box;
      overflow-x: hidden;
      display: flex;
      justify-content: center;
      background: var(--bg);
      color: var(--text);
      font-family: var(--sans-stack);
    }

    .shell {
      width: min(835px, 100%);
      height: 100%;
      box-sizing: border-box;
      padding: 22px;
      display: flex;
      flex-direction: column;
      min-height: 0;
      gap: 14px;
      border: 1px solid var(--line);
      border-radius: 18px;
      background: var(--card);
    }

    .page-header {
      display: flex;
      align-items: flex-start;
      justify-content: space-between;
      gap: 12px;
    }

    h1 {
      display: flex;
      align-items: center;
      gap: 8px;
      margin: 0;
      font-size: 1.4rem;
    }

    .version-badge {
      display: inline-flex;
      align-items: center;
      padding: 2px 8px;
      border-radius: 999px;
      background: #fff4ed;
      color: var(--accent);
      font-size: .68rem;
      font-weight: 700;
    }

    .header-actions {
      display: flex;
      flex-wrap: wrap;
      gap: 8px;
    }

    button {
      border: 1px solid transparent;
      border-radius: 10px;
      padding: 9px 14px;
      font: inherit;
      cursor: pointer;
      -webkit-tap-highlight-color: transparent;
    }

    button:disabled {
      cursor: not-allowed;
      opacity: .55;
    }

    body:not(.keyboard-focus) button:focus-visible {
      outline: none;
    }

    body.keyboard-focus button:focus {
      outline: 3px solid rgba(218, 119, 86, .48);
      outline-offset: 2px;
    }

    button.click-feedback:not(:disabled) {
      animation: buttonClickFeedback .16s ease;
    }

    @keyframes buttonClickFeedback {
      0% { filter: brightness(1); }
      50% { filter: brightness(.92); }
      100% { filter: brightness(1); }
    }

    .btn-primary {
      background: var(--accent);
      color: #fff;
    }

    .btn-primary:hover:not(:disabled),
    .btn-primary:active:not(:disabled),
    .btn-primary.click-feedback:not(:disabled) {
      background: var(--accent-hover);
    }

    .btn-secondary {
      border-color: var(--line);
      background: #fff;
      color: var(--text);
    }

    .icon-btn {
      display: inline-grid;
      place-items: center;
      width: 40px;
      padding: 0;
      border-color: var(--line);
      background: #fff;
      color: var(--muted);
    }

    .privacy-toggle-btn[aria-pressed="true"] {
      background: #fff4ed;
      color: var(--accent);
    }

    .client-info {
      display: flex;
      flex-wrap: wrap;
      gap: 6px 18px;
      color: var(--muted);
      font-size: .86rem;
    }

    .client-info strong {
      color: var(--text);
    }

    .client-ip-mismatch-alert {
      display: inline-flex;
      align-self: flex-start;
      padding: 4px 10px;
      border-radius: 999px;
      background: #fdecec;
      color: var(--danger);
      font-size: .78rem;
    }

    .client-ip-mismatch-alert[hidden] {
      display: none;
    }

    .list-title {
      display: flex;
      align-items: baseline;
      justify-content: space-between;
      gap: 12px;
    }

    .list-title h2 {
      margin: 0;
      font-size: 1rem;
    }

    .status-text {
      color: var(--muted);
      font-size: .8rem;
    }

    .target-list {
      display: flex;
      flex-direction: column;
      gap: 8px;
      flex: 1 1 auto;
      min-height: 0;
      overflow: auto;
    }

    .target-list-header,
    .target-row {
      flex: 0 0 auto;
      display: grid;
      grid-template-columns: minmax(0, 1fr) 110px 130px 96px;
      gap: 12px;
      align-items: center;
      padding: 10px 12px;
      box-sizing: border-box;
    }

    .target-list-header {
      color: var(--muted);
      font-size: .76rem;
    }

    .target-list-header span:nth-child(2),
    .target-list-header span:nth-child(3) {
      text-align: right;
    }

    .target-row {
      position: relative;
      border: 1px solid var(--line);
      border-radius: 12px;
    }

    .target-row.is-fastest {
      border-color: rgba(218, 119, 86, .5);
    }

    .target-row-progress {
      position: absolute;
      left: 0;
      bottom: 0;
      width: 0;
      height: 3px;
      border-radius: 0 0 0 12px;
      background: var(--accent);
    }

    .target-main {
      min-width: 0;
    }

    .target-label {
      overflow: hidden;
      font-weight: 700;
      text-overflow: ellipsis;
      white-space: nowrap;
    }

    .target-host {
      display: grid;
      grid-template-columns: max-content minmax(0, max-content) minmax(0, 1fr) max-content;
      gap: 8px;
      align-items: center;
      min-height: 17px;
      color: var(--muted);
      font-size: .78rem;
    }

    .target-host-text {
      grid-column: 1;
      max-width: 100%;
      line-height: 17px;
      overflow: hidden;
      text-overflow: ellipsis;
      white-space: nowrap;
    }

    .target-cname {
      display: inline-flex;
      grid-column: 2;
      justify-self: start;
      max-width: min(32ch, 100%);
      overflow: hidden;
      padding: 0 6px;
      border-radius: 999px;
      background: #f4efe9;
      font-size: .66rem;
      text-overflow: ellipsis;
      white-space: nowrap;
    }

    .target-colo {
      grid-column: 4;
      justify-self: end;
      width: max-content;
      box-sizing: border-box;
      padding: 1px 7px;
      border-radius: 999px;
      font-size: .64rem;
      font-weight: 700;
      line-height: 1.15;
    }

    .metric,
    .download-metric {
      position: relative;
      display: flex;
      flex-direction: column;
      align-items: flex-end;
      z-index: 2;
      font-family: var(--number-stack);
      font-variant-numeric: tabular-nums;
      font-feature-settings: "tnum" 1;
    }

    .metric strong,
    .target-speed-value {
      display: block;
      width: max-content;
      margin-left: auto;
      overflow: visible;
      font-size: 1.06rem;
      font-weight: 850;
      line-height: 1.15;
      text-overflow: clip;
      white-space: nowrap;
    }

    .metric span,
    .target-download-status {
      display: block;
      width: max-content;
      max-width: 100%;
      margin-left: auto;
      color: var(--muted);
      font-size: .72rem;
      line-height: 1.2;
      text-align: right;
      white-space: nowrap;
    }

    .history-fab {
      position: fixed;
      right: 20px;
      top: 65%;
      width: 48px;
      min-width: 48px;
      max-width: 48px;
      box-sizing: border-box;
      padding: 14px 8px;
      border-radius: 999px;
      background: var(--accent);
      color: #fff;
      transform: translateY(-50%);
      transition: transform .2s ease, background .2s ease;
    }

    .history-fab:hover:not(:disabled),
    .history-fab:active:not(:disabled),
    .history-fab.click-feedback:not(:disabled) {
      background: var(--accent-hover);
      transform: translateY(-50%) translateX(-3px);
    }

    .history-fab-label {
      display: inline-flex;
      flex-direction: column;
      gap: 2px;
      line-height: 1.15;
    }

    .history-fab-label span {
      display: block;
    }

    .modal-overlay {
      position: fixed;
      inset: 0;
      display: grid;
      place-items: center;
      background: rgba(61, 53, 48, .38);
      opacity: 0;
      visibility: hidden;
      transition:
        opacity .2s ease,
        visibility 0s linear .2s;
    }

    .modal-overlay:focus {
      outline: none;
    }

    .modal-overlay.active {
      opacity: 1;
      visibility: visible;
      transition: opacity .2s ease;
    }

    .modal-content {
      opacity: 0;
      transform: scale(0.96);
    }

    .modal-overlay.active .modal-content {
      opacity: 1;
      transform: scale(1);
    }

    .modal-overlay.is-entering .modal-content {
      animation: popIn .3s ease;
    }

    .modal-overlay.is-leaving .modal-content {
      animation: popOut .2s ease;
    }

    @keyframes popIn {
      from { opacity: 0; transform: scale(0.96); }
      to { opacity: 1; transform: scale(1); }
    }

    @keyframes popOut {
      from { opacity: 1; transform: scale(1); }
      to { opacity: 0; transform: scale(0.96); }
    }

    .history-shell {
      width: min(835px, calc(100vw - 48px));
      height: min(760px, calc(100dvh - 48px));
      display: flex;
      flex-direction: column;
      box-sizing: border-box;
      overflow: hidden;
      border: 1px solid var(--line);
      border-radius: 18px;
      background: var(--card);
    }

    .history-header {
      display: flex;
      align-items: center;
      justify-content: space-between;
      padding: 16px 18px 8px;
    }

    .history-header h2 {
      margin: 0;
      font-size: 1.05rem;
    }

    .close-btn {
      display: inline-grid;
      place-items: center;
      width: 36px;
      height: 36px;
      padding: 0;
      border-color: var(--line);
      border-radius: 999px;
      background: #fff;
      color: var(--muted);
      font-size: 1.2rem;
      line-height: 1;
      transition: transform .15s ease, box-shadow .15s ease, color .15s ease;
    }

    .close-btn:hover:not(:disabled),
    .close-btn:active:not(:disabled),
    .close-btn.click-feedback:not(:disabled) {
      color: var(--accent);
      box-shadow: 0 8px 18px rgba(218, 119, 86, .16);
      transform: translateY(-1px);
    }

    .close-btn:active:not(:disabled) {
      transform: translateY(0) scale(0.94);
    }

    .history-toolbar {
      display: grid;
      grid-template-columns: minmax(150px, 240px) minmax(220px, 1fr) auto auto;
      gap: 8px;
      padding: 8px 18px 12px;
    }

    .search-select,
    .search-input {
      box-sizing: border-box;
      width: 100%;
      min-width: 0;
      padding: 9px 12px;
      border: 1px solid var(--line);
      border-radius: 10px;
      background-color: #fff;
      color: var(--text);
      font: inherit;
    }

    .search-select {
      appearance: none;
      padding-right: 30px;
      background-image:
        linear-gradient(45deg, transparent 50%, var(--muted) 50%),
        linear-gradient(135deg, var(--muted) 50%, transparent 50%);
      background-position:
        calc(100% - 18px) 50%,
        calc(100% - 12px) 50%;
      background-size: 6px 6px;
      background-repeat: no-repeat;
    }

    .history-control-btn[aria-pressed="true"] {
      border-color: rgba(218, 119, 86, .22);
      background: #fff4ed;
      color: var(--accent);
    }

    .history-icon-btn {
      display: inline-grid;
      place-items: center;
      width: 42px;
      padding: 0;
    }

    .history-collapse-icon {
      width: 20px;
      height: 20px;
      fill: currentColor;
    }

    .table-container {
      flex: 1;
      overflow: auto;
      scrollbar-gutter: stable;
      padding: 0 18px 18px;
    }

    .history-table {
      --history-grid-columns: repeat(5, max-content);
      display: grid;
      grid-template-columns: var(--history-grid-columns);
      justify-content: space-between;
      width: max-content;
      min-width: 100%;
      font-size: .82rem;
    }

    .history-table::before {
      content: "";
      position: sticky;
      top: 0;
      z-index: 1;
      grid-column: 1 / -1;
      grid-row: 1;
      border-bottom: 1px solid #eee7df;
      background: var(--card);
    }

    .history-table thead,
    .history-table tbody,
    .history-table tr {
      display: contents;
    }

    .history-table th,
    .history-table td {
      padding: 8px;
      text-align: left;
    }

    .history-table tbody td {
      min-height: 54px;
    }

    .history-table thead tr > th {
      grid-row: 1;
      z-index: 2;
    }

    th {
      position: sticky;
      top: 0;
      background: transparent;
      color: var(--muted);
      font-weight: 600;
    }

    .history-table tr > :nth-child(1) {
      grid-column: 1;
    }

    .history-table tr > :nth-child(2) {
      grid-column: 2;
    }

    .history-table tr > :nth-child(3) {
      grid-column: 3;
    }

    .history-table tr > :nth-child(4) {
      grid-column: 4;
    }

    .history-table tr > :nth-child(5) {
      grid-column: 5;
    }

    .history-table .col-domain,
    .history-table .col-network {
      padding-left: clamp(8px, 1.55vw, 14px);
    }

    .history-table .empty-row {
      grid-column: 1 / -1;
    }

    .history-table tbody .history-record-row::before {
      content: "";
      grid-column: 1 / -1;
      grid-row: var(--history-row);
      border-radius: 10px;
      background: var(--history-row-bg, transparent);
      box-shadow: inset 0 0 0 1px var(--history-row-ring, transparent);
      pointer-events: auto;
    }

    .history-table tbody .history-record-row > td {
      grid-row: var(--history-row);
      align-self: center;
      position: relative;
    }

    .history-child-row {
      --history-row-bg: #f3f4f6;
      --history-row-hover-bg: #eceff3;
    }

    .history-group-row {
      -webkit-tap-highlight-color: transparent;
      -webkit-user-select: none;
      user-select: none;
    }

    .history-group-row td {
      cursor: pointer;
    }

    .history-group-row:active {
      --history-row-bg: #fff4ed;
      --history-row-ring: rgba(218, 119, 86, .22);
    }

    @media (hover: hover) {
      .history-group-row:hover,
      .history-group-row:has(> td:hover) {
        --history-row-bg: #fff4ed;
        --history-row-ring: rgba(218, 119, 86, .22);
      }

      .history-child-row:hover {
        --history-row-bg: var(--history-row-hover-bg);
      }

      .history-speed-sort-btn:hover:not(:disabled) {
        background: #fff4ed;
        color: var(--accent);
      }
    }

    .history-group-toggle {
      padding: 0;
      border: none;
      background: transparent;
      color: inherit;
      font: inherit;
    }

    .history-measure-row > td {
      min-height: 0;
      height: 0;
      padding-top: 0;
      padding-bottom: 0;
      overflow: hidden;
      visibility: hidden;
    }

    .history-measure-stack {
      display: grid;
      height: 0;
      overflow: hidden;
    }

    .history-speed-sort-btn {
      padding: 3px 8px;
      border-color: transparent;
      background: transparent;
      color: inherit;
    }

    .history-speed-sort-btn[aria-pressed="true"] {
      color: var(--accent);
      background: #fff4ed;
      border-color: rgba(218, 119, 86, .22);
    }

    .col-time {
      font-family: var(--mono-stack);
      white-space: nowrap;
    }

    .col-speed {
      font-family: var(--number-stack);
      white-space: nowrap;
    }

    .history-latency-cell {
      min-width: max-content;
    }

    .history-latency-main,
    .history-latency-jitter {
      overflow: visible;
      text-overflow: clip;
      white-space: nowrap;
    }

    .history-latency-jitter,
    .history-domain-host,
    .history-network-meta {
      display: block;
      color: var(--muted);
      font-size: .74rem;
    }

    .history-network-meta {
      display: flex;
      align-items: center;
      gap: 6px;
      white-space: nowrap;
    }

    @media (max-width: 640px) {
      body {
        padding: 10px;
      }

      .shell {
        padding: 14px;
      }

      .page-header {
        flex-direction: column;
      }

      .target-list-header {
        display: none;
      }

      .target-row {
        grid-template-columns: minmax(0, 1fr) minmax(82px, .8fr) 86px;
        gap: 6px 8px;
        align-items: stretch;
        padding: 8px;
      }

      .target-main {
        grid-column: 1 / -1;
        display: grid;
        grid-template-columns: minmax(0, 1fr) minmax(0, max-content);
        gap: 2px 8px;
      }

      .target-host {
        display: contents;
        font-size: .72rem;
      }

      .target-host-text {
        grid-column: 1;
        grid-row: 2;
        font-size: .72rem;
      }

      .target-cname {
        grid-column: 2;
        grid-row: 1;
        justify-self: end;
        max-width: min(34vw, 168px);
        font-size: .58rem;
      }

      .target-colo {
        grid-column: 2;
        grid-row: 2;
      }

      .target-row button {
        min-height: 38px;
        padding: 8px 10px;
      }

      .metric {
        align-items: flex-start;
        text-align: left;
      }

      .metric strong,
      .metric span {
        margin-left: 0;
      }

      .download-metric {
        align-items: flex-end;
        text-align: right;
      }

      .target-speed-value,
      .target-download-status {
        margin-left: auto;
        margin-right: 0;
        text-align: right;
      }

      .table-container {
        scrollbar-gutter: auto;
      }

      .history-shell {
        width: 100vw;
        height: 100dvh;
        border-radius: 0;
        border: none;
      }

      .history-toolbar {
        grid-template-columns: minmax(0, 1fr) 42px;
      }

      .history-toolbar .search-select,
      .history-toolbar .search-input {
        grid-column: 1 / -1;
      }

      #query-history-btn {
        grid-column: 1;
      }

      #history-collapse-toggle {
        grid-column: 2;
      }
    }

    @media (prefers-reduced-motion: reduce) {
      *,
      *::before,
      *::after {
        animation-duration: .01ms !important;
        transition-duration: .01ms !important;
      }
    }
"##;

/// What stands between the style sheet and the content.
pub const BODY_START: &'static str = r##"  </style>
</head>
<body>
"##;

/// The content.
pub const BODY: &'static str = r##"  <main class="shell">
    <header class="page-header">
      <div>
        <div>
          <h1>网络测速
            <span class="version-badge" title="当前版本 __APP_VERSION__" aria-label="当前版本 __APP_VERSION__">v__APP_VERSION__</span>
          </h1>
        </div>
      </div>
      <div class="header-actions">
        <button class="icon-btn privacy-toggle-btn" id="privacy-toggle-btn" type="button" aria-pressed="false" aria-label="隐私模式" title="隐私模式">
          <svg viewBox="0 0 24 24" width="20" height="20" fill="none" stroke="currentColor" stroke-width="2" aria-hidden="true">
            <path d="M2 12s4-7 10-7 10 7 10 7-4 7-10 7S2 12 2 12z"></path>
            <circle cx="12" cy="12" r="3"></circle>
          </svg>
        </button>
        <button class="btn-primary" id="one-click-download-btn" type="button">一键测速</button>
        <button class="btn-secondary" id="refresh-latency-btn" type="button">重测延迟</button>
      </div>
    </header>

    <section class="client-info" aria-label="用户信息">
      <span>IP <strong id="client-ip">查询中</strong></span>
      <span>位置 <strong id="client-location">查询中</strong></span>
    </section>
    <div class="client-ip-mismatch-alert" id="client-ip-mismatch-alert" hidden>IP 来源不一致</div>

    <div class="list-title">
      <h2>域名延迟对比</h2>
      <span class="status-text" id="latency-status">正在加载配置</span>
    </div>
    <section class="target-list" id="target-list" aria-live="polite"></section>
  </main>

  <button class="history-fab" id="history-btn" type="button" aria-label="打开测速记录">
    <span class="history-fab-label" aria-hidden="true">
      <span>测</span>
      <span>速</span>
      <span>记</span>
      <span>录</span>
    </span>
  </button>

  <div class="modal-overlay" id="history-modal" tabindex="-1" aria-hidden="true">
    <section class="modal-content history-shell" role="dialog" aria-modal="true" aria-labelledby="history-title">
      <header class="history-header">
        <h2 id="history-title">测速记录</h2>
        <button class="close-btn" id="close-history-btn" type="button" aria-label="关闭测速记录">×</button>
      </header>
      <form class="history-toolbar" id="history-form">
        <select class="search-select" id="history-domain" aria-label="按线路筛选"></select>
        <input class="search-input" id="history-q" type="search" placeholder="搜索历史 空格分隔 IP 位置 运营商 节点" aria-label="搜索历史">
        <button class="btn-primary" id="query-history-btn" type="submit">查询</button>
        <button class="btn-secondary history-control-btn history-icon-btn" id="history-collapse-toggle" type="button" aria-pressed="false" aria-label="折叠同 IP" title="折叠同 IP">
          <svg class="history-collapse-icon" viewBox="0 0 24 24" aria-hidden="true">
            <rect x="5" y="4.5" width="14" height="3" rx="1.3"></rect>
            <rect x="5" y="10.5" width="14" height="3" rx="1.3"></rect>
            <rect x="5" y="16.5" width="14" height="3" rx="1.3"></rect>
          </svg>
        </button>
      </form>
      <div class="table-container">
        <table class="history-table">
          <thead>
            <tr>
              <th class="col-time">时间</th>
              <th class="col-domain">域名</th>
              <th class="col-latency">HTTPS</th>
              <th class="col-speed"><button class="history-speed-sort-btn" id="history-speed-sort-btn" type="button" aria-pressed="false">下载速度</button></th>
              <th class="col-network">访问来源</th>
            </tr>
          </thead>
          <tbody id="history-body"></tbody>
        </table>
      </div>
    </section>
  </div>
"##;

/// What stands between the content and the script.
pub const SCRIPT_START: &'static str = r##"  <script>
"##;

/// What the script knows, and its small helpers.
pub const SCRIPT_STATE: &'static str = r##"    const PUBLIC_IP_URL = "https://myip.ipip.net/json";
    const CLOUDFLARE_TRACE_URL = "/cdn-cgi/trace";
    const MAX_CONSECUTIVE_LATENCY_FAILURES = 3;
    const ONE_CLICK_DOWNLOAD_TEST_MS = 6000;
    const BUTTON_CLICK_FEEDBACK_MS = 160;
    const HISTORY_OPEN_ANIMATION_MS = 300;
    const HISTORY_CLOSE_ANIMATION_MS = 200;
    const HISTORY_COLLAPSE_STORAGE_KEY = "web-speed-history-collapse";
    const HISTORY_SPEED_SORT_STORAGE_KEY = "web-speed-history-speed-sort";
    const COLO_PALETTE = [
      { bg: "#fdeee6", fg: "#b4532f", ring: "#f3cdb9" },
      { bg: "#e8f4ee", fg: "#2f7a52", ring: "#bfe0cd" },
      { bg: "#e7f0fb", fg: "#2c63a8", ring: "#bed5f0" },
      { bg: "#f3ebfa", fg: "#7446a3", ring: "#dac6ee" },
      { bg: "#fbf3da", fg: "#8d6a12", ring: "#ecd99b" },
      { bg: "#fde9ef", fg: "#b03a63", ring: "#f2bfd0" },
    ];

    let historyAnimationTimer = 0;

    const state = {
      targets: [],
      targetStates: new Map(),
      test: {
        latency_rounds: 5,
        latency_timeout_ms: 3500,
        download_test_ms: 8500,
        progress_save_ratio: .5,
      },
      history: {
        default_limit: 80,
      },
      display: {
        show_domains: true,
      },
      currentClientIp: "",
      currentClientLocation: {},
      currentClientIpMismatch: false,
      isPrivacyMode: false,
      isLatencyRunning: false,
      isSequenceRunning: false,
      activeDownload: null,
      coloColors: new Map(),
      historyRecords: [],
      expandedHistoryGroups: new Set(),
      historyCollapseEnabled: readHistoryPreference(HISTORY_COLLAPSE_STORAGE_KEY),
      historySpeedSortEnabled: readHistoryPreference(HISTORY_SPEED_SORT_STORAGE_KEY),
    };

    const els = {
      privacyBtn: document.getElementById("privacy-toggle-btn"),
      oneClickBtn: document.getElementById("one-click-download-btn"),
      refreshBtn: document.getElementById("refresh-latency-btn"),
      clientIp: document.getElementById("client-ip"),
      clientLocation: document.getElementById("client-location"),
      clientIpMismatchAlert: document.getElementById("client-ip-mismatch-alert"),
      latencyStatus: document.getElementById("latency-status"),
      targetList: document.getElementById("target-list"),
      historyBtn: document.getElementById("history-btn"),
      historyModal: document.getElementById("history-modal"),
      closeHistoryBtn: document.getElementById("close-history-btn"),
      historyForm: document.getElementById("history-form"),
      historyDomain: document.getElementById("history-domain"),
      historyQ: document.getElementById("history-q"),
      historyCollapseToggle: document.getElementById("history-collapse-toggle"),
      historySpeedSortBtn: document.getElementById("history-speed-sort-btn"),
      historyBody: document.getElementById("history-body"),
    };

    function cleanText(value) {
      return String(value ?? "").trim();
    }

    function escapeHtml(value) {
      return String(value ?? "")
        .replaceAll("&", "&amp;")
        .replaceAll("<", "&lt;")
        .replaceAll(">", "&gt;")
        .replaceAll("\"", "&quot;")
        .replaceAll("'", "&#39;");
    }

    function readHistoryPreference(key) {
      try {
        return localStorage.getItem(key) === "1";
      } catch {
        return false;
      }
    }

    function writeHistoryPreference(key, enabled) {
      try {
        localStorage.setItem(key, enabled ? "1" : "0");
      } catch {
        // 浏览器禁用本地存储时只影响记忆偏好。
      }
    }

"##;

/// How addresses and domains are shown.
pub const SCRIPT_PRIVACY: &'static str = r##"    function shouldShowDomains() {
      return state.display.show_domains !== false;
    }

    function hiddenDomainText() {
      return "-";
    }

    function maskIpv4ForPrivacy(value) {
      const parts = value.split(".");
      if (parts.length !== 4) return "*";
      return `${parts[0]}.${parts[1]}.*.*`;
    }

    function expandIpv6(value) {
      const [head, tail] = value.split("::");
      const front = head ? head.split(":") : [];
      if (tail === undefined) return front;
      const back = tail ? tail.split(":") : [];
      const missing = Math.max(0, 8 - front.length - back.length);
      return [...front, ...Array(missing).fill("0"), ...back];
    }

    function maskIpv6ForPrivacy(value) {
      const segments = expandIpv6(value);
      if (segments.length < 3) return "*";
      return `${Number.parseInt(segments[0], 16).toString(16)}:${Number.parseInt(segments[1], 16).toString(16)}:${Number.parseInt(segments[2], 16).toString(16)}::*`;
    }

    function maskIpForPrivacy(value) {
      const text = cleanText(value);
      if (!text) return "";
      return text.includes(":") ? maskIpv6ForPrivacy(text) : maskIpv4ForPrivacy(text);
    }

    function formatClientIpForDisplay(value) {
      const text = cleanText(value);
      if (!text) return "未知";
      return state.isPrivacyMode ? maskIpForPrivacy(text) : text;
    }

    function maskClientLocationForPrivacy(parts) {
      const locationParts = parts.filter(Boolean);
      if (locationParts.length === 0) return "";
      return [...locationParts.slice(0, -1), "***"].join(" ");
    }

    function formatClientLocationForDisplay() {
      const { country, region, city, isp } = state.currentClientLocation;
      const places = [country, region, city].map(cleanText).filter((part, index, all) => part && all.indexOf(part) === index);
      const location = state.isPrivacyMode ? maskClientLocationForPrivacy(places) : places.join(" ");
      return [location, cleanText(isp)].filter(Boolean).join(" · ") || "未知";
    }

    function maskDomainLabel(label) {
      if (label.length <= 2) return "*".repeat(label.length);
      return `${label[0]}***${label[label.length - 1]}`;
    }

    function maskDomainForPrivacy(value) {
      const labels = cleanText(value).split(".");
      if (labels.length < 2) return maskDomainLabel(labels[0] || "");
      return labels.map((label, index) => (index === labels.length - 1 ? label : maskDomainLabel(label))).join(".");
    }

    function looksLikeDomainLabel(label, host) {
      const text = cleanText(label).toLowerCase();
      return text === cleanText(host).toLowerCase() || /^[a-z0-9-]+(\.[a-z0-9-]+)+$/.test(text);
    }

    function formatTargetLabelForDisplay(target) {
      const label = cleanText(target.label);
      if (!looksLikeDomainLabel(label, target.host)) return label;
      if (!shouldShowDomains()) return hiddenDomainText();
      return state.isPrivacyMode ? maskDomainForPrivacy(label) : label;
    }

    function formatTargetHostForDisplay(host) {
      if (!shouldShowDomains()) return hiddenDomainText();
      return state.isPrivacyMode ? maskDomainForPrivacy(host) : cleanText(host);
    }

    function renderCnameBadge(cname) {
      if (!shouldShowDomains()) return "";
      const displayCname = cleanText(cname);
      if (!displayCname || displayCname === "-") return "";
      return `<span class="target-cname" title="${escapeHtml(displayCname)}" aria-label="CNAME ${escapeHtml(displayCname)}">${escapeHtml(displayCname)}</span>`;
    }

    function randomColoPaletteIndex() {
      return Math.floor(Math.random() * COLO_PALETTE.length);
    }

    function colorForColo(colo) {
      if (!state.coloColors.has(colo)) {
        state.coloColors.set(colo, COLO_PALETTE[randomColoPaletteIndex()]);
      }
      return state.coloColors.get(colo);
    }

    function coloStyle(colo) {
      const color = colorForColo(colo);
      return `background:${color.bg};color:${color.fg};box-shadow:inset 0 0 0 1px ${color.ring};`;
    }

    function togglePrivacyMode() {
      state.isPrivacyMode = !state.isPrivacyMode;
      els.privacyBtn.setAttribute("aria-pressed", String(state.isPrivacyMode));
      updateClientInfo();
      renderTargetList();
    }

    function updateClientIpMismatchAlert() {
      els.clientIpMismatchAlert.hidden = !state.currentClientIpMismatch;
    }

    function updateClientInfo() {
      els.clientIp.textContent = formatClientIpForDisplay(state.currentClientIp);
      els.clientLocation.textContent = formatClientLocationForDisplay();
      updateClientIpMismatchAlert();
    }

"##;

/// Who the visitor is, and how latencies are measured.
pub const SCRIPT_LATENCY: &'static str = r##"    async function fetchPublicIpInfo() {
      const response = await fetch(PUBLIC_IP_URL, { cache: "no-store" });
      if (!response.ok) throw new Error(`HTTP ${response.status}`);
      const payload = await response.json();
      const location = payload?.data?.location || [];
      return {
        ip: cleanText(payload?.data?.ip),
        country: cleanText(location[0]),
        region: cleanText(location[1]),
        city: cleanText(location[2]),
        isp: cleanText(location[4]),
      };
    }

    function parseCloudflareTrace(text) {
      const fields = {};
      for (const line of text.split("\n")) {
        const separatorIndex = line.indexOf("=");
        if (separatorIndex > 0) {
          fields[line.slice(0, separatorIndex)] = line.slice(separatorIndex + 1);
        }
      }
      return {
        ip: cleanText(fields.ip),
        loc: cleanText(fields.loc),
        colo: cleanText(fields.colo),
      };
    }

    async function fetchCloudflareTraceInfo() {
      const response = await fetch(CLOUDFLARE_TRACE_URL, { cache: "no-store" });
      if (!response.ok) throw new Error(`HTTP ${response.status}`);
      return parseCloudflareTrace(await response.text());
    }

    function ipv4PrefixForComparison(value) {
      const parts = cleanText(value).split(".");
      if (parts.length !== 4 || parts.some(part => !/^\d{1,3}$/.test(part))) return "";
      return parts.slice(0, 2).join(".");
    }

    function shouldUseCloudflareTraceInfo(publicIp, traceIp) {
      const publicPrefix = ipv4PrefixForComparison(publicIp);
      const tracePrefix = ipv4PrefixForComparison(traceIp);
      return Boolean(publicPrefix && tracePrefix && publicPrefix !== tracePrefix);
    }

    function applyClientInfo(publicInfo, traceInfo) {
      const shouldUseTraceInfo = shouldUseCloudflareTraceInfo(publicInfo?.ip, traceInfo?.ip);
      state.currentClientIpMismatch = shouldUseTraceInfo;
      if (shouldUseTraceInfo || (!publicInfo && traceInfo)) {
        state.currentClientIp = traceInfo.ip;
        state.currentClientLocation = {
          country: traceInfo.loc,
          region: "",
          city: "",
          isp: "",
        };
      } else if (publicInfo) {
        state.currentClientIp = publicInfo.ip;
        state.currentClientLocation = publicInfo;
      }
      updateClientInfo();
    }

    async function loadClientInfo() {
      const [publicInfo, traceInfo] = await Promise.all([
        fetchPublicIpInfo().catch(() => null),
        fetchCloudflareTraceInfo().catch(() => null),
      ]);
      applyClientInfo(publicInfo, traceInfo);
    }

    function newTargetState() {
      return {
        status: "pending",
        samples: [],
        latencyMs: null,
        jitterMs: null,
        consecutiveLatencyFailures: 0,
        latencySkipped: false,
        colo: "",
        downloadStatus: "idle",
        downloadMbps: null,
        downloadError: "",
        progress: 0,
      };
    }

    async function loadConfig() {
      try {
        const response = await fetch("/api/config", { cache: "no-store" });
        if (!response.ok) throw new Error(`HTTP ${response.status}`);
        const config = await response.json();
        state.targets = config.targets || [];
        state.test = { ...state.test, ...(config.test || {}) };
        state.history = { ...state.history, ...(config.history || {}) };
        state.display = {
          ...state.display,
          ...(config.display || {}),
        };
        state.targetStates = new Map(state.targets.map(target => [target.key, newTargetState()]));
        renderHistoryDomainOptions();
        renderTargetList();
        els.latencyStatus.textContent = renderLatencySummary();
        await refreshLatency();
      } catch (error) {
        els.latencyStatus.textContent = `配置加载失败: ${error.message}`;
      }
    }

    function renderLatencySummary() {
      const reachableCount = state.targets.filter(
        target => state.targetStates.get(target.key)?.status === "ready",
      ).length;
      return `共 ${state.targets.length} 条线路，测试成功 ${reachableCount} 条`;
    }

    function median(samples) {
      const sorted = [...samples].sort((a, b) => a - b);
      const middle = Math.floor(sorted.length / 2);
      return sorted.length % 2 ? sorted[middle] : (sorted[middle - 1] + sorted[middle]) / 2;
    }

    function jitter(samples) {
      if (samples.length < 2) return 0;
      let total = 0;
      for (let index = 1; index < samples.length; index += 1) {
        total += Math.abs(samples[index] - samples[index - 1]);
      }
      return total / (samples.length - 1);
    }

    async function measureLatency(target) {
      const controller = new AbortController();
      const timer = setTimeout(() => controller.abort(), state.test.latency_timeout_ms);
      const startedAt = performance.now();
      try {
        const response = await fetch(target.trace_url, { cache: "no-store", signal: controller.signal });
        if (!response.ok) throw new Error(`HTTP ${response.status}`);
        const trace = parseCloudflareTrace(await response.text());
        return { elapsedMs: performance.now() - startedAt, colo: trace.colo };
      } finally {
        clearTimeout(timer);
      }
    }

    async function runLatencyRound(target, discard) {
      const targetState = state.targetStates.get(target.key);
      if (targetState.latencySkipped) return;
      try {
        const { elapsedMs, colo } = await measureLatency(target);
        targetState.consecutiveLatencyFailures = 0;
        targetState.colo = colo || targetState.colo;
        if (!discard) {
          targetState.samples.push(elapsedMs);
          targetState.latencyMs = median(targetState.samples);
          targetState.jitterMs = jitter(targetState.samples);
          targetState.status = "ready";
        }
      } catch {
        targetState.consecutiveLatencyFailures += 1;
        if (targetState.consecutiveLatencyFailures >= MAX_CONSECUTIVE_LATENCY_FAILURES) {
          targetState.latencySkipped = true;
        }
      }
    }

    async function runLatencyRounds({ discardFirstRound = false } = {}) {
      const rounds = state.test.latency_rounds + (discardFirstRound ? 1 : 0);
      for (let round = 0; round < rounds; round += 1) {
        const discard = discardFirstRound && round === 0;
        await Promise.all(state.targets.map(target => runLatencyRound(target, discard)));
        renderTargetList();
      }
    }

    async function refreshLatency() {
      if (state.isLatencyRunning) return;
      state.isLatencyRunning = true;
      els.refreshBtn.disabled = true;
      for (const target of state.targets) {
        const targetState = state.targetStates.get(target.key);
        targetState.status = "pending";
        targetState.samples = [];
        targetState.latencyMs = null;
        targetState.jitterMs = null;
        targetState.consecutiveLatencyFailures = 0;
        targetState.latencySkipped = false;
      }
      els.latencyStatus.textContent = "正在测试延迟";
      await runLatencyRounds({ discardFirstRound: true });
      for (const target of state.targets) {
        const targetState = state.targetStates.get(target.key);
        if (targetState.samples.length === 0) targetState.status = "failed";
      }
      state.isLatencyRunning = false;
      els.refreshBtn.disabled = false;
      renderTargetList();
      els.latencyStatus.textContent = renderLatencySummary();
    }

"##;

/// The list of targets, and how downloads are measured.
pub const SCRIPT_DOWNLOAD: &'static str = r##"    function sortedTargetsForRender() {
      const latency = target => state.targetStates.get(target.key)?.latencyMs ?? Number.POSITIVE_INFINITY;
      return [...state.targets].sort((a, b) => {
        const left = latency(a);
        const right = latency(b);
        return left === right ? 0 : left - right;
      });
    }

    function renderLatencyMetric(targetState) {
      if (targetState.status === "failed") return "<strong>不可用</strong><span>请求失败</span>";
      if (targetState.latencyMs === null) return "<strong>--</strong><span>测试中</span>";
      return `<strong>${targetState.latencyMs.toFixed(0)} ms</strong><span>抖动 ${targetState.jitterMs.toFixed(1)} ms</span>`;
    }

    function formatSpeed(value) {
      return Number.isFinite(value) ? `${value.toFixed(1)} Mbps` : "--";
    }

    function renderDownloadStatusText(targetState) {
      switch (targetState.downloadStatus) {
        case "running":
          return "测速中";
        case "done":
          return "测速完成";
        case "stopped":
          return "已停止";
        case "failed":
          return targetState.downloadError || "测速失败";
        default:
          return "未测速";
      }
    }

    function renderColoBadge(colo) {
      if (!colo) return "";
      return `<span class="target-colo" style="${coloStyle(colo)}">${escapeHtml(colo)}</span>`;
    }

    function renderTargetRow(target, index) {
      const targetState = state.targetStates.get(target.key);
      const isRunning = targetState.downloadStatus === "running";
      const isFastest = index === 0 && targetState.status === "ready";
      return `
        <article class="target-row${isFastest ? " is-fastest" : ""}" data-target-key="${escapeHtml(target.key)}">
          <div class="target-main">
            <div class="target-label">${escapeHtml(formatTargetLabelForDisplay(target))}</div>
            <div class="target-host">
              <span class="target-host-text">${escapeHtml(formatTargetHostForDisplay(target.host))}</span>
              ${renderCnameBadge(target.cname)}
              ${renderColoBadge(targetState.colo)}
            </div>
          </div>
          <div class="metric">${renderLatencyMetric(targetState)}</div>
          <div class="download-metric">
            <span class="target-speed-value">${formatSpeed(targetState.downloadMbps)}</span>
            <span class="target-download-status">${escapeHtml(renderDownloadStatusText(targetState))}</span>
          </div>
          <button class="btn-primary" type="button" onclick="startDownloadTest('${escapeHtml(target.key)}')">${isRunning ? "停止" : "测速"}</button>
          <div class="target-row-progress" style="width:${(targetState.progress * 100).toFixed(1)}%"></div>
        </article>`;
    }

    function renderTargetList() {
      const header = `
        <div class="target-list-header">
          <span>线路</span>
          <span>HTTPS 延迟</span>
          <span>下载速度</span>
          <span></span>
        </div>`;
      els.targetList.innerHTML = header + sortedTargetsForRender().map(renderTargetRow).join("");
    }

    function patchDownloadRow(targetKey) {
      const row = els.targetList.querySelector(`[data-target-key="${CSS.escape(targetKey)}"]`);
      const targetState = state.targetStates.get(targetKey);
      if (!row || !targetState) return;
      row.querySelector(".target-speed-value").textContent = formatSpeed(targetState.downloadMbps);
      row.querySelector(".target-download-status").textContent = renderDownloadStatusText(targetState);
      row.querySelector(".target-row-progress").style.width = `${(targetState.progress * 100).toFixed(1)}%`;
      row.querySelector("button").textContent = targetState.downloadStatus === "running" ? "停止" : "测速";
    }

    function buildResultPayload(target, targetState, saved) {
      const { country, region, city, isp } = state.currentClientLocation;
      return {
        id: saved?.id ?? null,
        update_token: saved?.update_token ?? null,
        domain: target.host,
        https_latency_ms: targetState.latencyMs ?? 0,
        https_jitter_ms: targetState.jitterMs ?? 0,
        download_mbps: targetState.downloadMbps ?? 0,
        ip_country: country || null,
        ip_region: region || null,
        ip_city: city || null,
        ip_isp: isp || null,
        colo: targetState.colo || null,
      };
    }

    async function saveResult(target, targetState, saved) {
      const response = await fetch("/api/results", {
        method: "POST",
        headers: { "content-type": "application/json" },
        body: JSON.stringify(buildResultPayload(target, targetState, saved)),
      });
      if (!response.ok) throw new Error(`HTTP ${response.status}`);
      return response.json();
    }

    function stopDownloadTest() {
      if (!state.activeDownload) return;
      state.activeDownload.stopped = true;
      state.activeDownload.controller.abort();
    }

    async function startDownloadTest(targetKey, durationMs = state.test.download_test_ms) {
      const target = state.targets.find(item => item.key === targetKey);
      const targetState = state.targetStates.get(targetKey);
      if (!target || !targetState) return;
      if (state.activeDownload) {
        const isSameTarget = state.activeDownload.targetKey === targetKey;
        stopDownloadTest();
        if (isSameTarget) return;
        await state.activeDownload.finished;
      }
      const run = { targetKey, controller: new AbortController(), stopped: false, finished: null };
      state.activeDownload = run;
      run.finished = runDownload(run, target, targetState, durationMs);
      await run.finished;
    }

    async function runDownload(run, target, targetState, durationMs) {
      targetState.downloadStatus = "running";
      targetState.downloadMbps = null;
      targetState.downloadError = "";
      targetState.progress = 0;
      patchDownloadRow(target.key);

      let received = 0;
      let partialSave = null;
      const startedAt = performance.now();
      const timer = setTimeout(() => run.controller.abort(), durationMs);
      try {
        const response = await fetch(target.download_url, { cache: "no-store", signal: run.controller.signal });
        if (!response.ok || !response.body) throw new Error(`HTTP ${response.status}`);
        const reader = response.body.getReader();
        for (;;) {
          const { done, value } = await reader.read();
          if (done) break;
          received += value.byteLength;
          const elapsedMs = performance.now() - startedAt;
          targetState.downloadMbps = (received * 8) / Math.max(elapsedMs, 1) / 1000;
          targetState.progress = Math.min(1, elapsedMs / durationMs);
          if (!partialSave && targetState.progress >= state.test.progress_save_ratio) {
            partialSave = saveResult(target, targetState, null).catch(() => null);
          }
          patchDownloadRow(target.key);
        }
        targetState.downloadStatus = "done";
      } catch (error) {
        if (run.stopped) {
          targetState.downloadStatus = "stopped";
        } else if (error.name === "AbortError" && received > 0) {
          targetState.downloadStatus = "done";
        } else {
          targetState.downloadStatus = "failed";
          targetState.downloadError = error.name === "TypeError" ? "跨域或网络错误" : "测速失败";
        }
      } finally {
        clearTimeout(timer);
      }

      if (targetState.downloadStatus === "done") {
        targetState.progress = 1;
        const saved = partialSave ? await partialSave : null;
        try {
          await saveResult(target, targetState, saved);
        } catch {
          targetState.downloadError = "记录未保存";
        }
      } else {
        targetState.progress = 0;
      }
      if (state.activeDownload === run) state.activeDownload = null;
      patchDownloadRow(target.key);
    }

    function oneClickDownloadTargets() {
      return sortedTargetsForRender().filter(target => {
        const targetState = state.targetStates.get(target.key);
        return targetState.status === "ready";
      });
    }

    async function runOneClickDownloadSequence() {
      if (state.isSequenceRunning) {
        state.isSequenceRunning = false;
        stopDownloadTest();
        return;
      }
      state.isSequenceRunning = true;
      els.oneClickBtn.textContent = "停止测速";
      for (const target of oneClickDownloadTargets()) {
        if (!state.isSequenceRunning) break;
        const targetState = state.targetStates.get(target.key);
        if (targetState?.status !== "failed") {
          await startDownloadTest(target.key, ONE_CLICK_DOWNLOAD_TEST_MS);
        }
      }
      state.isSequenceRunning = false;
      els.oneClickBtn.textContent = "一键测速";
    }

"##;

/// The history of results.
pub const SCRIPT_HISTORY: &'static str = r##"    function finishHistoryAnimation(className, delayMs) {
      clearTimeout(historyAnimationTimer);
      historyAnimationTimer = setTimeout(() => {
        els.historyModal.classList.remove(className);
      }, delayMs);
    }

    function toggleHistory(isOpen) {
      els.historyModal.classList.remove("is-entering", "is-leaving");
      els.historyModal.classList.toggle("active", isOpen);
      els.historyModal.setAttribute("aria-hidden", String(!isOpen));
      if (isOpen) {
        els.historyModal.classList.add("is-entering");
        finishHistoryAnimation("is-entering", HISTORY_OPEN_ANIMATION_MS);
        els.historyModal.focus();
      } else {
        els.historyModal.classList.add("is-leaving");
        finishHistoryAnimation("is-leaving", HISTORY_CLOSE_ANIMATION_MS);
        els.historyBtn.focus();
      }
    }

    function openHistory() {
      toggleHistory(true);
      loadHistory();
    }

    function historyDomainOptionLabel(target, index) {
      const fallbackLabel = `线路 ${index + 1}`;
      const host = cleanText(target.host);
      const given = cleanText(target.label);
      const label = given && (shouldShowDomains() || !looksLikeDomainLabel(given, host)) ? given : fallbackLabel;
      return shouldShowDomains() ? `${label} / ${host}` : label;
    }

    function renderHistoryDomainOptions() {
      els.historyDomain.disabled = false;
      const options = state.targets.map(
        (target, index) => `<option value="${escapeHtml(target.host)}">${escapeHtml(historyDomainOptionLabel(target, index))}</option>`,
      );
      els.historyDomain.innerHTML = `<option value="">全部线路</option>${options.join("")}`;
    }

    async function loadHistory() {
      els.historyBody.innerHTML = "<tr><td class=\"empty-row\">加载中</td></tr>";
      const params = new URLSearchParams();
      if (els.historyDomain.value) params.set("domain", els.historyDomain.value);
      if (cleanText(els.historyQ.value)) params.set("q", cleanText(els.historyQ.value));
      params.set("limit", String(state.history.default_limit));
      try {
        const response = await fetch(`/api/results?${params}`, { cache: "no-store" });
        if (!response.ok) throw new Error(`HTTP ${response.status}`);
        const records = await response.json();
        state.historyRecords = records;
        state.expandedHistoryGroups.clear();
        renderHistory();
      } catch {
        els.historyBody.innerHTML = "<tr><td class=\"empty-row\">加载失败</td></tr>";
      }
    }

    function historyTargetFor(record) {
      return state.targets.find(target => target.host === record.domain);
    }

    function formatHistoryTargetLabelForDisplay(target, record) {
      const label = cleanText(target?.label) || cleanText(record?.domain);
      if (!shouldShowDomains() && looksLikeDomainLabel(label, target?.host || record?.domain)) {
        return hiddenDomainText();
      }
      return label;
    }

    function historyTargetLabel(record) {
      const target = historyTargetFor(record);
      return formatHistoryTargetLabelForDisplay(target, record);
    }

    function historyTargetHost(record) {
      if (!shouldShowDomains()) return hiddenDomainText();
      return cleanText(record.domain);
    }

    function historyDownloadSpeed(record) {
      const speed = Number(record.download_mbps);
      return Number.isFinite(speed) ? speed : 0;
    }

    function sortHistoryRecordsBySpeed(records) {
      return [...records].sort((a, b) => historyDownloadSpeed(b) - historyDownloadSpeed(a));
    }

    function bestHistoryRecord(records) {
      return sortHistoryRecordsBySpeed(records)[0];
    }

    function historyClientGroupKey(record) {
      return cleanText(record.client_ip) || "未知";
    }

    function groupHistoryRecordsByClientIp(records) {
      const recordsByKey = new Map();
      for (const record of records) {
        const key = historyClientGroupKey(record);
        if (!recordsByKey.has(key)) recordsByKey.set(key, []);
        recordsByKey.get(key).push(record);
      }
      return [...recordsByKey].map(([key, groupRecords]) => ({
        key,
        records: state.historySpeedSortEnabled ? sortHistoryRecordsBySpeed(groupRecords) : groupRecords,
        bestRecord: bestHistoryRecord(groupRecords),
      }));
    }

    function sortHistoryGroupsBySpeed(groups) {
      return [...groups].sort((a, b) => historyDownloadSpeed(b.bestRecord) - historyDownloadSpeed(a.bestRecord));
    }

    function historyRowsForRender() {
      const rows = [];
      const pushHistoryRow = (record, options = {}) => {
        rows.push(renderHistoryRow(record, { ...options, rowIndex: rows.length + 3 }));
      };
      if (!state.historyCollapseEnabled) {
        const records = state.historySpeedSortEnabled
          ? sortHistoryRecordsBySpeed(state.historyRecords)
          : state.historyRecords;
        records.forEach(record => pushHistoryRow(record));
        return rows;
      }
      const groups = groupHistoryRecordsByClientIp(state.historyRecords);
      const ordered = state.historySpeedSortEnabled ? sortHistoryGroupsBySpeed(groups) : groups;
      for (const group of ordered) {
        if (group.records.length === 1) {
          pushHistoryRow(group.bestRecord);
          continue;
        }
        pushHistoryRow(group.bestRecord, { group });
        if (state.expandedHistoryGroups.has(group.key)) {
          group.records.forEach(record => pushHistoryRow(record, { isChild: true }));
        }
      }
      return rows;
    }

    function formatTime(value) {
      const time = new Date(value);
      if (Number.isNaN(time.getTime())) return "-";
      const pad = number => String(number).padStart(2, "0");
      return `${pad(time.getMonth() + 1)}-${pad(time.getDate())} ${pad(time.getHours())}:${pad(time.getMinutes())}`;
    }

    function renderHistoryTimeCell(record, options) {
      if (!options.group) return formatTime(record.created_at);
      const isExpanded = state.expandedHistoryGroups.has(options.group.key);
      return `<button class="history-group-toggle" type="button" data-history-group-toggle data-history-group-key="${escapeHtml(options.group.key)}" aria-expanded="${isExpanded}">${formatTime(record.created_at)} (${options.group.records.length})</button>`;
    }

    function formatMilliseconds(value) {
      const number = Number(value);
      return value !== null && Number.isFinite(number) ? `${number.toFixed(1)} ms` : "-";
    }

    function renderHistoryLatency(record) {
      return `
        <div class="history-latency-cell">
          <span class="history-latency-main">${formatMilliseconds(record.https_latency_ms)}</span>
          <span class="history-latency-jitter">抖动 ${formatMilliseconds(record.https_jitter_ms)}</span>
        </div>`;
    }

    function historyNetworkText(record) {
      const places = [record.ip_country, record.ip_region, record.ip_city].map(cleanText);
      const location = places.filter((part, index) => part && places.indexOf(part) === index).join(" ");
      const isp = cleanText(record.ip_isp);
      return location && isp ? `${location} · ${isp}` : location || isp;
    }

    function renderHistoryColoBadge(record) {
      const colo = cleanText(record.colo);
      if (!colo) return "";
      return `<span class="target-colo history-network-colo" style="${coloStyle(colo)}">${escapeHtml(colo)}</span>`;
    }

    function renderHistoryNetwork(record) {
      return `
        <span class="history-network-ip">${escapeHtml(record.client_ip)}</span>
        <span class="history-network-meta">
          <span>${escapeHtml(historyNetworkText(record))}</span>
          ${renderHistoryColoBadge(record)}
        </span>`;
    }

    function renderHistoryDomain(record) {
      return `
        <span class="history-domain-label">${escapeHtml(historyTargetLabel(record))}</span>
        <span class="history-domain-host">${escapeHtml(historyTargetHost(record))}</span>`;
    }

    function renderHistoryRow(record, options) {
      const rowClass = options.group ? " history-group-row" : options.isChild ? " history-child-row" : "";
      const groupAttributes = options.group
        ? ` data-history-group-row data-history-group-key="${escapeHtml(options.group.key)}"`
        : "";
      return `
        <tr class="history-record-row${rowClass}" style="--history-row:${options.rowIndex};"${groupAttributes}>
          <td class="col-time">${renderHistoryTimeCell(record, options)}</td>
          <td class="col-domain">${renderHistoryDomain(record)}</td>
          <td class="col-latency">${renderHistoryLatency(record)}</td>
          <td class="col-speed">${formatSpeed(historyDownloadSpeed(record))}</td>
          <td class="col-network">${renderHistoryNetwork(record)}</td>
        </tr>`;
    }

    function renderHistoryMeasureRow() {
      const stack = render => `<div class="history-measure-stack">${state.historyRecords.map(record => `<div>${render(record)}</div>`).join("")}</div>`;
      return `
        <tr class="history-record-row history-measure-row" style="--history-row:2;" aria-hidden="true">
          <td class="col-time">${stack(record => formatTime(record.created_at))}</td>
          <td class="col-domain">${stack(renderHistoryDomain)}</td>
          <td class="col-latency">${stack(renderHistoryLatency)}</td>
          <td class="col-speed">${stack(record => formatSpeed(historyDownloadSpeed(record)))}</td>
          <td class="col-network">${stack(renderHistoryNetwork)}</td>
        </tr>`;
    }

    function renderHistoryControls() {
      const historyCollapseLabel = state.historyCollapseEnabled ? "取消折叠同 IP" : "折叠同 IP";
      els.historyCollapseToggle.setAttribute("aria-pressed", String(state.historyCollapseEnabled));
      els.historyCollapseToggle.setAttribute("aria-label", historyCollapseLabel);
      els.historyCollapseToggle.setAttribute("title", historyCollapseLabel);
      els.historySpeedSortBtn.setAttribute("aria-pressed", String(state.historySpeedSortEnabled));
    }

    function renderHistory() {
      renderHistoryControls();
      if (state.historyRecords.length === 0) {
        els.historyBody.innerHTML = "<tr><td class=\"empty-row\">暂无记录</td></tr>";
        return;
      }
      els.historyBody.innerHTML = `${renderHistoryMeasureRow()}${historyRowsForRender().join("")}`;
    }

    function toggleHistoryCollapse() {
      state.historyCollapseEnabled = !state.historyCollapseEnabled;
      writeHistoryPreference(HISTORY_COLLAPSE_STORAGE_KEY, state.historyCollapseEnabled);
      renderHistory();
    }

    function toggleHistorySpeedSort() {
      state.historySpeedSortEnabled = !state.historySpeedSortEnabled;
      writeHistoryPreference(HISTORY_SPEED_SORT_STORAGE_KEY, state.historySpeedSortEnabled);
      renderHistory();
    }

    function toggleHistoryGroup(groupKey) {
      if (!state.expandedHistoryGroups.delete(groupKey)) {
        state.expandedHistoryGroups.add(groupKey);
      }
      renderHistory();
    }

"##;

/// What the buttons do, and how the page starts.
pub const SCRIPT_EVENTS: &'static str = r##"    function playButtonClickFeedback(button) {
      if (button.matches("[data-history-group-toggle]")) return;
      button.classList.add("click-feedback");
      setTimeout(() => button.classList.remove("click-feedback"), BUTTON_CLICK_FEEDBACK_MS);
    }

    document.addEventListener("click", event => {
      const button = event.target instanceof Element ? event.target.closest("button") : null;
      if (button) playButtonClickFeedback(button);
    }, true);

    document.addEventListener("keydown", event => {
      if (event.key === "Tab") document.body.classList.toggle("keyboard-focus", true);
      if (event.key === "Escape" && els.historyModal.classList.contains("active")) toggleHistory(false);
    });

    document.addEventListener("pointerdown", () => {
      document.body.classList.toggle("keyboard-focus", false);
    });

    els.privacyBtn.addEventListener("click", togglePrivacyMode);
    els.oneClickBtn.addEventListener("click", () => runOneClickDownloadSequence());
    els.refreshBtn.addEventListener("click", () => refreshLatency());
    els.historyBtn.addEventListener("click", openHistory);
    els.closeHistoryBtn.addEventListener("click", () => toggleHistory(false));
    els.historyCollapseToggle.addEventListener("click", toggleHistoryCollapse);
    els.historySpeedSortBtn.addEventListener("click", toggleHistorySpeedSort);
    els.historyModal.addEventListener("click", event => {
      if (event.target === els.historyModal) toggleHistory(false);
    });
    els.historyForm.addEventListener("submit", event => {
      event.preventDefault();
      loadHistory();
    });
    els.historyBody.addEventListener("click", event => {
      const target = event.target;
      if (!(target instanceof Element)) return;
      const toggle = target.closest("[data-history-group-toggle]");
      const row = target.closest("[data-history-group-row]");
      const groupKey = toggle?.dataset.historyGroupKey || row?.dataset.historyGroupKey;
      if (groupKey) toggleHistoryGroup(groupKey);
    });

    loadClientInfo();
    loadConfig();
"##;

/// How the page ends.
pub const END: &'static str = r##"  </script>
</body>
</html>
"##;

} // verus!
