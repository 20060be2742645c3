//! What the fixed parts of a page do not hold.
//!
//! The solver learns the characters of a literal only where the literal itself is written,
//! so each stylesheet and each script stands here once more, beside what is shown of it.

use vstd::prelude::*;

use crate::assets::{
    BASE_CSS, DEFAULT_THEME_CSS, EDITOR_CSS, EDITOR_JS, NAV_JS, PDF_AUTOPRINT_JS, PRINT_CSS,
};
use crate::text::{lemma_upto, upto, white};

verus! {

/// Whether every `<` in a text opens something else than a `div`, and none begins a
/// comparison with a number, as one in the presentation script does.
pub open spec fn tame(s: Seq<char>) -> bool {
    forall|i: int|
        0 <= i < s.len() && #[trigger] s[i] == '<' ==> i + 1 < s.len() && s[i + 1] != 'd' && s[i + 1]
            != '0'
}

/// The same, at one position.
pub open spec fn tame_at(s: Seq<char>) -> spec_fn(int) -> bool {
    |i: int| s[i] == '<' ==> i + 1 < s.len() && s[i + 1] != 'd' && s[i + 1] != '0'
}

pub proof fn lemma_tame(s: Seq<char>)
    requires
        upto(tame_at(s), s.len() as int),
    ensures
        tame(s),
{
    lemma_upto(tame_at(s), s.len() as int);
    assert forall|i: int| 0 <= i < s.len() && #[trigger] s[i] == '<' implies i + 1 < s.len() && s[i
        + 1] != 'd' && s[i + 1] != '0' by {
        assert(tame_at(s)(i));
    }
}

pub proof fn lemma_without_tags(s: Seq<char>)
    requires
        upto(|i: int| s[i] != '<', s.len() as int),
    ensures
        tame(s),
{
    let f = |i: int| s[i] != '<';
    lemma_upto(f, s.len() as int);
    assert forall|i: int| 0 <= i < s.len() implies #[trigger] s[i] != '<' by {
        assert(f(i));
    }
}

/// What is used of the beginnings and ends of a text that turns slides: the presentation
/// script, or the place of its buttons.
pub open spec fn turning(m: Seq<char>) -> bool {
    &&& m.len() >= 20
    &&& exists|k: int|
        0 <= k && k + 1 < m.len() && #[trigger] m[k] == '<' && (m[k + 1] == 'd' || m[k + 1] == '0')
    &&& forall|k: int|
        0 < k < m.len() && #[trigger] m[k] == '<' ==> k + 1 < m.len() && m[k + 1] == '0'
    &&& forall|k: int|
        0 <= k && k + 1 < m.len() && (#[trigger] m[k] == '\n' || m[k] == '/') ==> m[k + 1] != '\n'
    &&& !white(m[0]) && !white(m.last())
    &&& m[0] == '(' || (m[0] == '<' && m[12] == 'd')
}

/// What [`turning`] says of one position of the presentation script.
spec fn turning_at(m: Seq<char>) -> spec_fn(int) -> bool {
    |k: int|
        (m[k] == '<' ==> k + 1 < m.len() && m[k + 1] == '0') && (m[k] == '\n' || m[k] == '/' ==> m[k
            + 1] != '\n')
}

/// Where the buttons of a presented deck stand.
pub open spec fn button_place() -> Seq<char> {
    "<div class=\"deck-nav\">"@
}

pub proof fn lemma_button_place()
    ensures
        turning(button_place()),
{
    reveal_strlit("<div class=\"deck-nav\">");
    let m = button_place();
    let f = |k: int| m[k] != '\n' && m[k] != '/' && (k > 0 ==> m[k] != '<');
    reveal_with_fuel(upto, 24);
    assert(m.len() == 22 && m[0] == '<' && m[1] == 'd' && m[12] == 'd' && m[21] == '>');
    lemma_upto(f, 22);
    assert forall|k: int| 0 <= k < m.len() implies #[trigger] m[k] != '\n' && m[k] != '/' && (k > 0
        ==> m[k] != '<') by {
        assert(f(k));
    }
}

pub proof fn lemma_nav_js()
    ensures
        turning(NAV_JS@),
{
    reveal_strlit(r#"(function(){
  var slides=[].slice.call(document.querySelectorAll('.slide'));
  var i=0;
  function fit(slide){
    var inner=slide.querySelector('.slide-inner'); if(!inner)return;
    inner.style.transform='none';
    var cs=getComputedStyle(slide);
    var availW=slide.clientWidth-parseFloat(cs.paddingLeft)-parseFloat(cs.paddingRight);
    var availH=slide.clientHeight-parseFloat(cs.paddingTop)-parseFloat(cs.paddingBottom);
    var needW=inner.scrollWidth, needH=inner.scrollHeight;
    var scale=Math.min(1, availW/needW, availH/needH);
    inner.style.transform = scale<0.999 ? 'scale('+scale.toFixed(3)+')' : 'none';
  }
  function fitActive(){ var s=slides[i]; if(s) requestAnimationFrame(function(){fit(s)}); }
  slides.forEach(function(s){
    [].forEach.call(s.querySelectorAll('img'),function(im){
      if(!im.complete) im.addEventListener('load',fitActive);
      im.addEventListener('error',fitActive);
    });
  });
  window.addEventListener('resize',fitActive);
  function show(n){
    i=Math.max(0,Math.min(slides.length-1,n));
    slides.forEach(function(s,k){s.classList.toggle('active',k===i)});
    var c=document.querySelector('.slide-counter');
    if(c)c.textContent=(i+1)+' / '+slides.length;
    fitActive();
    try{parent.postMessage({type:'deck-pos',i:i,n:slides.length},'*')}catch(e){}
  }
  function next(){show(i+1)} function prev(){show(i-1)}
  document.addEventListener('keydown',function(e){
    if(e.key==='ArrowRight'||e.key==='PageDown'){e.preventDefault();next()}
    else if(e.key==='ArrowLeft'||e.key==='PageUp'){e.preventDefault();prev()}
  });
  document.addEventListener('click',function(e){
    if(e.target.closest('.deck-nav'))return;
    if(window.getSelection&&String(window.getSelection()))return;
    (e.clientX/window.innerWidth>0.5?next:prev)();
  });
  window.addEventListener('message',function(e){
    var d=e.data||{}; if(d.type!=='deck-nav')return;
    if(d.dir==='next')next(); else if(d.dir==='prev')prev();
    else if(typeof d.dir==='number')show(d.dir);
  });
  var nb=document.querySelector('.deck-nav');
  if(nb){var p=nb.querySelector('[data-prev]'),n=nb.querySelector('[data-next]');
    if(p)p.onclick=prev; if(n)n.onclick=next;}
  show(0);
})();"#);
    let m = NAV_JS@;
    let f = turning_at(m);
    reveal_with_fuel(upto, 42);
    assert(m.len() == 2216 && m[0] == '(' && m[2215] == ';');
    assert(m[577] == '<' && m[578] == '0');
    assert(upto(f, 40));
    assert(upto(f, 80));
    assert(upto(f, 120));
    assert(upto(f, 160));
    assert(upto(f, 200));
    assert(upto(f, 240));
    assert(upto(f, 280));
    assert(upto(f, 320));
    assert(upto(f, 360));
    assert(upto(f, 400));
    assert(upto(f, 440));
    assert(upto(f, 480));
    assert(upto(f, 520));
    assert(upto(f, 560));
    assert(upto(f, 600));
    assert(upto(f, 640));
    assert(upto(f, 680));
    assert(upto(f, 720));
    assert(upto(f, 760));
    assert(upto(f, 800));
    assert(upto(f, 840));
    assert(upto(f, 880));
    assert(upto(f, 920));
    assert(upto(f, 960));
    assert(upto(f, 1000));
    assert(upto(f, 1040));
    assert(upto(f, 1080));
    assert(upto(f, 1120));
    assert(upto(f, 1160));
    assert(upto(f, 1200));
    assert(upto(f, 1240));
    assert(upto(f, 1280));
    assert(upto(f, 1320));
    assert(upto(f, 1360));
    assert(upto(f, 1400));
    assert(upto(f, 1440));
    assert(upto(f, 1480));
    assert(upto(f, 1520));
    assert(upto(f, 1560));
    assert(upto(f, 1600));
    assert(upto(f, 1640));
    assert(upto(f, 1680));
    assert(upto(f, 1720));
    assert(upto(f, 1760));
    assert(upto(f, 1800));
    assert(upto(f, 1840));
    assert(upto(f, 1880));
    assert(upto(f, 1920));
    assert(upto(f, 1960));
    assert(upto(f, 2000));
    assert(upto(f, 2040));
    assert(upto(f, 2080));
    assert(upto(f, 2120));
    assert(upto(f, 2160));
    assert(upto(f, 2200));
    lemma_upto(f, 2216);
    assert forall|k: int| 0 <= k < m.len() implies (#[trigger] m[k] == '<' ==> k + 1 < m.len() && m[k
        + 1] == '0') && (m[k] == '\n' || m[k] == '/' ==> m[k + 1] != '\n') by {
        assert(f(k));
    }
}

pub proof fn lemma_base_css()
    ensures
        tame(BASE_CSS@),
{
    reveal_strlit(r#"*{box-sizing:border-box;margin:0;padding:0}
html,body{height:100%;width:100%;overflow:hidden}
body{font-family:system-ui,-apple-system,"Segoe UI",Roboto,sans-serif;
  background:#0b0c10;color:#e7e7ea}
#deck{position:relative;height:100vh;width:100vw}
.slide{position:absolute;inset:0;flex-direction:column;
  justify-content:center;padding:7vmin 10vmin;overflow:hidden}
.slide:not(.active){display:none!important}
.slide.active{animation:slidein .35s ease}
@keyframes slidein{from{opacity:0;transform:translateY(14px)}to{opacity:1;transform:none}}
.slide-inner{width:100%;max-width:1100px;margin:0 auto;
  transform-origin:center center;transition:transform .2s ease}
.slide-image{max-width:100%;max-height:48vh;border-radius:14px;display:block;
  object-fit:contain}
.columns .slide-image{max-height:62vh}
.slide-image.broken{display:none}
.deck-nav{position:fixed;bottom:16px;right:20px;display:flex;gap:8px;
  align-items:center;z-index:20;opacity:.55;transition:opacity .2s}
.deck-nav:hover{opacity:1}
.deck-nav button{cursor:pointer;border:1px solid currentColor;background:transparent;
  color:inherit;border-radius:7px;padding:3px 11px;font:13px system-ui}
.slide-counter{position:fixed;bottom:18px;left:20px;font:12px/1 system-ui;
  letter-spacing:.08em;opacity:.45;z-index:20}"#);
    let s = BASE_CSS@;
    let f = |i: int| s[i] != '<';
    reveal_with_fuel(upto, 42);
    assert(s.len() == 1285);
    assert(upto(f, 40));
    assert(upto(f, 80));
    assert(upto(f, 120));
    assert(upto(f, 160));
    assert(upto(f, 200));
    assert(upto(f, 240));
    assert(upto(f, 280));
    assert(upto(f, 320));
    assert(upto(f, 360));
    assert(upto(f, 400));
    assert(upto(f, 440));
    assert(upto(f, 480));
    assert(upto(f, 520));
    assert(upto(f, 560));
    assert(upto(f, 600));
    assert(upto(f, 640));
    assert(upto(f, 680));
    assert(upto(f, 720));
    assert(upto(f, 760));
    assert(upto(f, 800));
    assert(upto(f, 840));
    assert(upto(f, 880));
    assert(upto(f, 920));
    assert(upto(f, 960));
    assert(upto(f, 1000));
    assert(upto(f, 1040));
    assert(upto(f, 1080));
    assert(upto(f, 1120));
    assert(upto(f, 1160));
    assert(upto(f, 1200));
    assert(upto(f, 1240));
    assert(upto(f, 1280));
    lemma_without_tags(s);
}

pub proof fn lemma_default_theme_css()
    ensures
        tame(DEFAULT_THEME_CSS@),
{
    reveal_strlit(r#"body{background:radial-gradient(120% 120% at 0% 0%,#11151f 0%,#0a0b10 60%);
  color:#eef1f6}
.slide-inner{max-width:1040px}
.kicker{font:600 14px/1 system-ui;letter-spacing:.22em;text-transform:uppercase;
  color:#6ea8ff;margin-bottom:18px}
.slide-title{font:800 clamp(34px,6vmin,68px)/1.05 system-ui;letter-spacing:-.02em;
  margin-bottom:18px}
.slide-subtitle{font:600 clamp(20px,3vmin,30px)/1.2 system-ui;color:#aab3c5;
  margin-bottom:14px}
.slide-lead{font:400 clamp(17px,2.4vmin,24px)/1.5 system-ui;color:#c7cedb;
  max-width:880px}
.bullets{list-style:none;margin-top:22px;display:flex;flex-direction:column;gap:14px}
.bullets li{font:400 clamp(16px,2.3vmin,23px)/1.45 system-ui;padding-left:30px;
  position:relative;color:#dde3ee}
.bullets li::before{content:"";position:absolute;left:0;top:.62em;width:11px;height:11px;
  border-radius:3px;background:#6ea8ff}
.columns{display:flex;gap:34px;margin-top:26px}
.col{flex:1}
.big-number{font:800 clamp(50px,12vmin,120px)/1 system-ui;color:#6ea8ff}
.label{font:600 14px/1.2 system-ui;letter-spacing:.06em;text-transform:uppercase;
  color:#8b94a7}
.card{background:rgba(255,255,255,.04);border:1px solid rgba(255,255,255,.08);
  border-radius:16px;padding:24px 26px}
.quote{font:500 clamp(22px,3.4vmin,34px)/1.35 Georgia,serif;font-style:italic;
  color:#eef1f6}
.footer{position:absolute;bottom:6vmin;left:10vmin;right:10vmin;
  font:500 13px/1 system-ui;letter-spacing:.04em;color:#6b7384}"#);
    let s = DEFAULT_THEME_CSS@;
    let f = |i: int| s[i] != '<';
    reveal_with_fuel(upto, 42);
    assert(s.len() == 1446);
    assert(upto(f, 40));
    assert(upto(f, 80));
    assert(upto(f, 120));
    assert(upto(f, 160));
    assert(upto(f, 200));
    assert(upto(f, 240));
    assert(upto(f, 280));
    assert(upto(f, 320));
    assert(upto(f, 360));
    assert(upto(f, 400));
    assert(upto(f, 440));
    assert(upto(f, 480));
    assert(upto(f, 520));
    assert(upto(f, 560));
    assert(upto(f, 600));
    assert(upto(f, 640));
    assert(upto(f, 680));
    assert(upto(f, 720));
    assert(upto(f, 760));
    assert(upto(f, 800));
    assert(upto(f, 840));
    assert(upto(f, 880));
    assert(upto(f, 920));
    assert(upto(f, 960));
    assert(upto(f, 1000));
    assert(upto(f, 1040));
    assert(upto(f, 1080));
    assert(upto(f, 1120));
    assert(upto(f, 1160));
    assert(upto(f, 1200));
    assert(upto(f, 1240));
    assert(upto(f, 1280));
    assert(upto(f, 1320));
    assert(upto(f, 1360));
    assert(upto(f, 1400));
    assert(upto(f, 1440));
    lemma_without_tags(s);
}

pub proof fn lemma_editor_css()
    ensures
        tame(EDITOR_CSS@),
{
    reveal_strlit(r#"html,body{overflow:auto!important}
.slide{cursor:default}
.slide-inner [data-ed-hover]{outline:1.5px dashed rgba(110,168,255,.6);outline-offset:3px}
.slide-inner [data-ed-sel]{outline:2px solid #6ea8ff!important;outline-offset:3px;
  border-radius:3px}
.slide-inner [contenteditable=true]{cursor:text;outline:2px solid #2ecc71!important;
  outline-offset:3px}
.slide-image{cursor:pointer}
.deck-nav,.slide-counter{display:none!important}"#);
    let s = EDITOR_CSS@;
    let f = |i: int| s[i] != '<';
    reveal_with_fuel(upto, 42);
    assert(s.len() == 437);
    assert(upto(f, 40));
    assert(upto(f, 80));
    assert(upto(f, 120));
    assert(upto(f, 160));
    assert(upto(f, 200));
    assert(upto(f, 240));
    assert(upto(f, 280));
    assert(upto(f, 320));
    assert(upto(f, 360));
    assert(upto(f, 400));
    lemma_without_tags(s);
}

pub proof fn lemma_print_css()
    ensures
        tame(PRINT_CSS@),
{
    reveal_strlit(r#"/* print layout — one 16:9 page per slide, overrides deck mechanics */
@page{size:1280px 720px;margin:0}
html,body{width:auto;height:auto;overflow:visible;margin:0;padding:0}
#deck{position:static;width:auto;height:auto}
.slide,.slide:not(.active){position:relative!important;display:flex!important;width:1280px;height:720px;inset:auto;page-break-after:always;break-after:page;overflow:hidden;animation:none!important;transform:none!important;-webkit-print-color-adjust:exact;print-color-adjust:exact}
.slide:last-child{page-break-after:auto;break-after:auto}
.slide-inner{transform:none!important}"#);
    let s = PRINT_CSS@;
    let f = |i: int| s[i] != '<';
    reveal_with_fuel(upto, 42);
    assert(s.len() == 598);
    assert(upto(f, 40));
    assert(upto(f, 80));
    assert(upto(f, 120));
    assert(upto(f, 160));
    assert(upto(f, 200));
    assert(upto(f, 240));
    assert(upto(f, 280));
    assert(upto(f, 320));
    assert(upto(f, 360));
    assert(upto(f, 400));
    assert(upto(f, 440));
    assert(upto(f, 480));
    assert(upto(f, 520));
    assert(upto(f, 560));
    lemma_without_tags(s);
}

pub proof fn lemma_pdf_autoprint_js()
    ensures
        tame(PDF_AUTOPRINT_JS@),
{
    reveal_strlit(r#"(function(){
  if(!/[?&]print=1/.test(location.search))return;
  function go(){ setTimeout(function(){ try{window.print()}catch(e){} }, 350); }
  var imgs=[].slice.call(document.images).filter(function(i){return !i.complete});
  if(!imgs.length){ if(document.readyState==='complete')go(); else window.addEventListener('load',go); return; }
  var left=imgs.length, fired=false;
  function one(){ if(--left<=0 && !fired){fired=true;go()} }
  imgs.forEach(function(i){ i.addEventListener('load',one); i.addEventListener('error',one); });
  setTimeout(function(){ if(!fired){fired=true;go()} }, 5000); // fallback
})();"#);
    let s = PDF_AUTOPRINT_JS@;
    let f = tame_at(s);
    reveal_with_fuel(upto, 42);
    assert(s.len() == 615);
    assert(upto(f, 40));
    assert(upto(f, 80));
    assert(upto(f, 120));
    assert(upto(f, 160));
    assert(upto(f, 200));
    assert(upto(f, 240));
    assert(upto(f, 280));
    assert(upto(f, 320));
    assert(upto(f, 360));
    assert(upto(f, 400));
    assert(upto(f, 440));
    assert(upto(f, 480));
    assert(upto(f, 520));
    assert(upto(f, 560));
    assert(upto(f, 600));
    lemma_tame(s);
}

pub proof fn lemma_editor_js()
    ensures
        tame(EDITOR_JS@),
{
    reveal_strlit(r#"(function(){
  var slides=[].slice.call(document.querySelectorAll('.slide'));
  var i=0, sel=null;
  function show(n){
    i=Math.max(0,Math.min(slides.length-1,n));
    slides.forEach(function(s,k){s.classList.toggle('active',k===i)});
  }
  function selectable(el){
    if(!el) return null;
    var inner=el.closest('.slide-inner'); if(!inner) return null;
    if(el===inner){ return null; }
    return el;
  }
  function clearSel(){
    if(sel){ sel.removeAttribute('data-ed-sel');
      if(sel.getAttribute('contenteditable')==='true'){
        sel.removeAttribute('contenteditable');
      }
    }
    sel=null;
  }
  function describe(el){
    if(!el) return null;
    var cs=getComputedStyle(el);
    var isImg=el.classList.contains('slide-image')||el.tagName==='IMG';
    var fs=parseFloat(cs.fontSize)||0;
    return {
      kind: isImg ? 'image' : 'text',
      tag: el.tagName.toLowerCase(),
      cls: el.getAttribute('class')||'',
      imgId: isImg ? (el.getAttribute('data-img')||'') : '',
      color: rgbToHex(cs.color),
      background: rgbToHex(cs.backgroundColor),
      fontSize: Math.round(fs),
      fontWeight: cs.fontWeight,
      textAlign: cs.textAlign,
      inline: el.getAttribute('style')||''
    };
  }
  function rgbToHex(c){
    if(!c) return '';
    var m=c.match(/rgba?\(([^)]+)\)/); if(!m) return c;
    var p=m[1].split(',').map(function(x){return parseFloat(x)});
    if(p.length>=4 && p[3]===0) return '';
    function h(n){return ('0'+Math.round(n).toString(16)).slice(-2)}
    return '#'+h(p[0])+h(p[1])+h(p[2]);
  }
  function postSel(){
    try{parent.postMessage({type:'ed-select',info:describe(sel),i:i},'*')}catch(e){}
  }

  document.addEventListener('click',function(e){
    var el=selectable(e.target);
    if(sel && sel.getAttribute('contenteditable')==='true' && sel.contains(e.target)) return;
    if(el===sel){ return; }
    clearSel();
    if(el){ sel=el; sel.setAttribute('data-ed-sel','1'); }
    postSel();
  });

  document.addEventListener('dblclick',function(e){
    var el=selectable(e.target);
    if(!el) return;
    if(el.classList.contains('slide-image')||el.tagName==='IMG') return;
    clearSel(); sel=el; sel.setAttribute('data-ed-sel','1');
    sel.setAttribute('contenteditable','true');
    sel.focus();
    postSel();
  });
  document.addEventListener('blur',function(e){
    if(e.target && e.target.getAttribute &&
       e.target.getAttribute('contenteditable')==='true'){
      e.target.removeAttribute('contenteditable');
    }
  },true);

  document.addEventListener('mouseover',function(e){
    var el=selectable(e.target); if(!el) return;
    if(el.getAttribute('contenteditable')==='true') return;
    el.setAttribute('data-ed-hover','1');
  });
  document.addEventListener('mouseout',function(e){
    if(e.target&&e.target.removeAttribute) e.target.removeAttribute('data-ed-hover');
  });

  function cleanSlide(slide){
    var inner=slide.querySelector('.slide-inner'); if(!inner) return '';
    var c=inner.cloneNode(true);
    [].forEach.call(c.querySelectorAll('[data-ed-sel],[data-ed-hover],[contenteditable]'),
      function(n){ n.removeAttribute('data-ed-sel'); n.removeAttribute('data-ed-hover');
        n.removeAttribute('contenteditable'); });
    [].forEach.call(c.querySelectorAll('img'),function(im){
      if(im.getAttribute('data-img')){ im.removeAttribute('src'); }
      im.classList.remove('broken'); im.removeAttribute('data-broken');
    });
    [].forEach.call(c.querySelectorAll('[style=""]'),function(n){n.removeAttribute('style')});
    return c.innerHTML;
  }

  window.addEventListener('message',function(e){
    var d=e.data||{};
    if(d.type==='ed-show'){ clearSel(); show(d.i); postSel(); }
    else if(d.type==='ed-style'){
      if(sel){ sel.style[d.prop]=d.value; postSel(); }
    }
    else if(d.type==='ed-clear-style'){
      if(sel){ sel.removeAttribute('style'); postSel(); }
    }
    else if(d.type==='ed-set-image'){
      if(sel && (sel.classList.contains('slide-image')||sel.tagName==='IMG')){
        if(d.imgId) sel.setAttribute('data-img',d.imgId);
        if(d.dataUri) sel.setAttribute('src',d.dataUri);
        sel.classList.remove('broken'); sel.removeAttribute('data-broken');
        postSel();
      }
    }
    else if(d.type==='ed-serialize'){
      var out=slides.map(function(s,k){return {i:k, html:cleanSlide(s)}});
      try{parent.postMessage({type:'ed-deck',slides:out},'*')}catch(err){}
    }
  });

  show(0);
  try{parent.postMessage({type:'ed-ready',n:slides.length},'*')}catch(e){}
})();"#);
    let s = EDITOR_JS@;
    let f = |i: int| s[i] != '<';
    reveal_with_fuel(upto, 42);
    assert(s.len() == 4538);
    assert(upto(f, 40));
    assert(upto(f, 80));
    assert(upto(f, 120));
    assert(upto(f, 160));
    assert(upto(f, 200));
    assert(upto(f, 240));
    assert(upto(f, 280));
    assert(upto(f, 320));
    assert(upto(f, 360));
    assert(upto(f, 400));
    assert(upto(f, 440));
    assert(upto(f, 480));
    assert(upto(f, 520));
    assert(upto(f, 560));
    assert(upto(f, 600));
    assert(upto(f, 640));
    assert(upto(f, 680));
    assert(upto(f, 720));
    assert(upto(f, 760));
    assert(upto(f, 800));
    assert(upto(f, 840));
    assert(upto(f, 880));
    assert(upto(f, 920));
    assert(upto(f, 960));
    assert(upto(f, 1000));
    assert(upto(f, 1040));
    assert(upto(f, 1080));
    assert(upto(f, 1120));
    assert(upto(f, 1160));
    assert(upto(f, 1200));
    assert(upto(f, 1240));
    assert(upto(f, 1280));
    assert(upto(f, 1320));
    assert(upto(f, 1360));
    assert(upto(f, 1400));
    assert(upto(f, 1440));
    assert(upto(f, 1480));
    assert(upto(f, 1520));
    assert(upto(f, 1560));
    assert(upto(f, 1600));
    assert(upto(f, 1640));
    assert(upto(f, 1680));
    assert(upto(f, 1720));
    assert(upto(f, 1760));
    assert(upto(f, 1800));
    assert(upto(f, 1840));
    assert(upto(f, 1880));
    assert(upto(f, 1920));
    assert(upto(f, 1960));
    assert(upto(f, 2000));
    assert(upto(f, 2040));
    assert(upto(f, 2080));
    assert(upto(f, 2120));
    assert(upto(f, 2160));
    assert(upto(f, 2200));
    assert(upto(f, 2240));
    assert(upto(f, 2280));
    assert(upto(f, 2320));
    assert(upto(f, 2360));
    assert(upto(f, 2400));
    assert(upto(f, 2440));
    assert(upto(f, 2480));
    assert(upto(f, 2520));
    assert(upto(f, 2560));
    assert(upto(f, 2600));
    assert(upto(f, 2640));
    assert(upto(f, 2680));
    assert(upto(f, 2720));
    assert(upto(f, 2760));
    assert(upto(f, 2800));
    assert(upto(f, 2840));
    assert(upto(f, 2880));
    assert(upto(f, 2920));
    assert(upto(f, 2960));
    assert(upto(f, 3000));
    assert(upto(f, 3040));
    assert(upto(f, 3080));
    assert(upto(f, 3120));
    assert(upto(f, 3160));
    assert(upto(f, 3200));
    assert(upto(f, 3240));
    assert(upto(f, 3280));
    assert(upto(f, 3320));
    assert(upto(f, 3360));
    assert(upto(f, 3400));
    assert(upto(f, 3440));
    assert(upto(f, 3480));
    assert(upto(f, 3520));
    assert(upto(f, 3560));
    assert(upto(f, 3600));
    assert(upto(f, 3640));
    assert(upto(f, 3680));
    assert(upto(f, 3720));
    assert(upto(f, 3760));
    assert(upto(f, 3800));
    assert(upto(f, 3840));
    assert(upto(f, 3880));
    assert(upto(f, 3920));
    assert(upto(f, 3960));
    assert(upto(f, 4000));
    assert(upto(f, 4040));
    assert(upto(f, 4080));
    assert(upto(f, 4120));
    assert(upto(f, 4160));
    assert(upto(f, 4200));
    assert(upto(f, 4240));
    assert(upto(f, 4280));
    assert(upto(f, 4320));
    assert(upto(f, 4360));
    assert(upto(f, 4400));
    assert(upto(f, 4440));
    assert(upto(f, 4480));
    assert(upto(f, 4520));
    lemma_without_tags(s);
}

} // verus!
