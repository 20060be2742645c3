//! The fixed parts of a rendered deck: stylesheets and scripts.

use vstd::prelude::*;

verus! {

/// The mechanics of a deck: one slide visible at a time, the navigation, the counter.
pub const BASE_CSS: &'static str = r#"*{box-sizing:border-box;margin:0;padding:0}
html,body{height:100%;width:100%;overflow:hidden}
body{font-family:system-ui,-apple-system,"Segoe UI",Roboto,sans-serif;
  background:#0b0c10;color:#e7e7ea}
#deck{position:relative;height:100vh;width:100vw}
.slide{position:absolute;inset:0;flex-direction:column;
  justify-content:center;padding:7vmin 10vmin;overflow:hidden}
.slide:not(.active){display:none!important}
.slide.active{animation:slidein .35s ease}
@keyframes slidein{from{opacity:0;transform:translateY(14px)}to{opacity:1;transform:none}}
.slide-inner{width:100%;max-width:1100px;margin:0 auto;
  transform-origin:center center;transition:transform .2s ease}
.slide-image{max-width:100%;max-height:48vh;border-radius:14px;display:block;
  object-fit:contain}
.columns .slide-image{max-height:62vh}
.slide-image.broken{display:none}
.deck-nav{position:fixed;bottom:16px;right:20px;display:flex;gap:8px;
  align-items:center;z-index:20;opacity:.55;transition:opacity .2s}
.deck-nav:hover{opacity:1}
.deck-nav button{cursor:pointer;border:1px solid currentColor;background:transparent;
  color:inherit;border-radius:7px;padding:3px 11px;font:13px system-ui}
.slide-counter{position:fixed;bottom:18px;left:20px;font:12px/1 system-ui;
  letter-spacing:.08em;opacity:.45;z-index:20}"#;

/// The presentation script: moves between slides and scales each to fit.
pub const NAV_JS: &'static str = r#"(function(){
  var slides=[].slice.call(document.querySelectorAll('.slide'));
  var i=0;
  function fit(slide){
    var inner=slide.querySelector('.slide-inner'); if(!inner)return;
    inner.style.transform='none';
    var cs=getComputedStyle(slide);
    var availW=slide.clientWidth-parseFloat(cs.paddingLeft)-parseFloat(cs.paddingRight);
    var availH=slide.clientHeight-parseFloat(cs.paddingTop)-parseFloat(cs.paddingBottom);
    var needW=inner.scrollWidth, needH=inner.scrollHeight;
    var scale=Math.min(1, availW/needW, availH/needH);
    inner.style.transform = scale<0.999 ? 'scale('+scale.toFixed(3)+')' : 'none';
  }
  function fitActive(){ var s=slides[i]; if(s) requestAnimationFrame(function(){fit(s)}); }
  slides.forEach(function(s){
    [].forEach.call(s.querySelectorAll('img'),function(im){
      if(!im.complete) im.addEventListener('load',fitActive);
      im.addEventListener('error',fitActive);
    });
  });
  window.addEventListener('resize',fitActive);
  function show(n){
    i=Math.max(0,Math.min(slides.length-1,n));
    slides.forEach(function(s,k){s.classList.toggle('active',k===i)});
    var c=document.querySelector('.slide-counter');
    if(c)c.textContent=(i+1)+' / '+slides.length;
    fitActive();
    try{parent.postMessage({type:'deck-pos',i:i,n:slides.length},'*')}catch(e){}
  }
  function next(){show(i+1)} function prev(){show(i-1)}
  document.addEventListener('keydown',function(e){
    if(e.key==='ArrowRight'||e.key==='PageDown'){e.preventDefault();next()}
    else if(e.key==='ArrowLeft'||e.key==='PageUp'){e.preventDefault();prev()}
  });
  document.addEventListener('click',function(e){
    if(e.target.closest('.deck-nav'))return;
    if(window.getSelection&&String(window.getSelection()))return;
    (e.clientX/window.innerWidth>0.5?next:prev)();
  });
  window.addEventListener('message',function(e){
    var d=e.data||{}; if(d.type!=='deck-nav')return;
    if(d.dir==='next')next(); else if(d.dir==='prev')prev();
    else if(typeof d.dir==='number')show(d.dir);
  });
  var nb=document.querySelector('.deck-nav');
  if(nb){var p=nb.querySelector('[data-prev]'),n=nb.querySelector('[data-next]');
    if(p)p.onclick=prev; if(n)n.onclick=next;}
  show(0);
})();"#;

/// The look of a deck without a theme of its own.
pub const DEFAULT_THEME_CSS: &'static str = r#"body{background:radial-gradient(120% 120% at 0% 0%,#11151f 0%,#0a0b10 60%);
  color:#eef1f6}
.slide-inner{max-width:1040px}
.kicker{font:600 14px/1 system-ui;letter-spacing:.22em;text-transform:uppercase;
  color:#6ea8ff;margin-bottom:18px}
.slide-title{font:800 clamp(34px,6vmin,68px)/1.05 system-ui;letter-spacing:-.02em;
  margin-bottom:18px}
.slide-subtitle{font:600 clamp(20px,3vmin,30px)/1.2 system-ui;color:#aab3c5;
  margin-bottom:14px}
.slide-lead{font:400 clamp(17px,2.4vmin,24px)/1.5 system-ui;color:#c7cedb;
  max-width:880px}
.bullets{list-style:none;margin-top:22px;display:flex;flex-direction:column;gap:14px}
.bullets li{font:400 clamp(16px,2.3vmin,23px)/1.45 system-ui;padding-left:30px;
  position:relative;color:#dde3ee}
.bullets li::before{content:"";position:absolute;left:0;top:.62em;width:11px;height:11px;
  border-radius:3px;background:#6ea8ff}
.columns{display:flex;gap:34px;margin-top:26px}
.col{flex:1}
.big-number{font:800 clamp(50px,12vmin,120px)/1 system-ui;color:#6ea8ff}
.label{font:600 14px/1.2 system-ui;letter-spacing:.06em;text-transform:uppercase;
  color:#8b94a7}
.card{background:rgba(255,255,255,.04);border:1px solid rgba(255,255,255,.08);
  border-radius:16px;padding:24px 26px}
.quote{font:500 clamp(22px,3.4vmin,34px)/1.35 Georgia,serif;font-style:italic;
  color:#eef1f6}
.footer{position:absolute;bottom:6vmin;left:10vmin;right:10vmin;
  font:500 13px/1 system-ui;letter-spacing:.04em;color:#6b7384}"#;

/// The marks that the editor puts on a slide.
pub const EDITOR_CSS: &'static str = r#"html,body{overflow:auto!important}
.slide{cursor:default}
.slide-inner [data-ed-hover]{outline:1.5px dashed rgba(110,168,255,.6);outline-offset:3px}
.slide-inner [data-ed-sel]{outline:2px solid #6ea8ff!important;outline-offset:3px;
  border-radius:3px}
.slide-inner [contenteditable=true]{cursor:text;outline:2px solid #2ecc71!important;
  outline-offset:3px}
.slide-image{cursor:pointer}
.deck-nav,.slide-counter{display:none!important}"#;

/// The editing script. It talks to the page around it by messages alone:
/// it takes `ed-show`, `ed-style`, `ed-clear-style`, `ed-set-image` and `ed-serialize`,
/// and sends `ed-ready`, `ed-select` and `ed-deck`.
pub const EDITOR_JS: &'static str = r#"(function(){
  var slides=[].slice.call(document.querySelectorAll('.slide'));
  var i=0, sel=null;
  function show(n){
    i=Math.max(0,Math.min(slides.length-1,n));
    slides.forEach(function(s,k){s.classList.toggle('active',k===i)});
  }
  function selectable(el){
    if(!el) return null;
    var inner=el.closest('.slide-inner'); if(!inner) return null;
    if(el===inner){ return null; }
    return el;
  }
  function clearSel(){
    if(sel){ sel.removeAttribute('data-ed-sel');
      if(sel.getAttribute('contenteditable')==='true'){
        sel.removeAttribute('contenteditable');
      }
    }
    sel=null;
  }
  function describe(el){
    if(!el) return null;
    var cs=getComputedStyle(el);
    var isImg=el.classList.contains('slide-image')||el.tagName==='IMG';
    var fs=parseFloat(cs.fontSize)||0;
    return {
      kind: isImg ? 'image' : 'text',
      tag: el.tagName.toLowerCase(),
      cls: el.getAttribute('class')||'',
      imgId: isImg ? (el.getAttribute('data-img')||'') : '',
      color: rgbToHex(cs.color),
      background: rgbToHex(cs.backgroundColor),
      fontSize: Math.round(fs),
      fontWeight: cs.fontWeight,
      textAlign: cs.textAlign,
      inline: el.getAttribute('style')||''
    };
  }
  function rgbToHex(c){
    if(!c) return '';
    var m=c.match(/rgba?\(([^)]+)\)/); if(!m) return c;
    var p=m[1].split(',').map(function(x){return parseFloat(x)});
    if(p.length>=4 && p[3]===0) return '';
    function h(n){return ('0'+Math.round(n).toString(16)).slice(-2)}
    return '#'+h(p[0])+h(p[1])+h(p[2]);
  }
  function postSel(){
    try{parent.postMessage({type:'ed-select',info:describe(sel),i:i},'*')}catch(e){}
  }

  document.addEventListener('click',function(e){
    var el=selectable(e.target);
    if(sel && sel.getAttribute('contenteditable')==='true' && sel.contains(e.target)) return;
    if(el===sel){ return; }
    clearSel();
    if(el){ sel=el; sel.setAttribute('data-ed-sel','1'); }
    postSel();
  });

  document.addEventListener('dblclick',function(e){
    var el=selectable(e.target);
    if(!el) return;
    if(el.classList.contains('slide-image')||el.tagName==='IMG') return;
    clearSel(); sel=el; sel.setAttribute('data-ed-sel','1');
    sel.setAttribute('contenteditable','true');
    sel.focus();
    postSel();
  });
  document.addEventListener('blur',function(e){
    if(e.target && e.target.getAttribute &&
       e.target.getAttribute('contenteditable')==='true'){
      e.target.removeAttribute('contenteditable');
    }
  },true);

  document.addEventListener('mouseover',function(e){
    var el=selectable(e.target); if(!el) return;
    if(el.getAttribute('contenteditable')==='true') return;
    el.setAttribute('data-ed-hover','1');
  });
  document.addEventListener('mouseout',function(e){
    if(e.target&&e.target.removeAttribute) e.target.removeAttribute('data-ed-hover');
  });

  function cleanSlide(slide){
    var inner=slide.querySelector('.slide-inner'); if(!inner) return '';
    var c=inner.cloneNode(true);
    [].forEach.call(c.querySelectorAll('[data-ed-sel],[data-ed-hover],[contenteditable]'),
      function(n){ n.removeAttribute('data-ed-sel'); n.removeAttribute('data-ed-hover');
        n.removeAttribute('contenteditable'); });
    [].forEach.call(c.querySelectorAll('img'),function(im){
      if(im.getAttribute('data-img')){ im.removeAttribute('src'); }
      im.classList.remove('broken'); im.removeAttribute('data-broken');
    });
    [].forEach.call(c.querySelectorAll('[style=""]'),function(n){n.removeAttribute('style')});
    return c.innerHTML;
  }

  window.addEventListener('message',function(e){
    var d=e.data||{};
    if(d.type==='ed-show'){ clearSel(); show(d.i); postSel(); }
    else if(d.type==='ed-style'){
      if(sel){ sel.style[d.prop]=d.value; postSel(); }
    }
    else if(d.type==='ed-clear-style'){
      if(sel){ sel.removeAttribute('style'); postSel(); }
    }
    else if(d.type==='ed-set-image'){
      if(sel && (sel.classList.contains('slide-image')||sel.tagName==='IMG')){
        if(d.imgId) sel.setAttribute('data-img',d.imgId);
        if(d.dataUri) sel.setAttribute('src',d.dataUri);
        sel.classList.remove('broken'); sel.removeAttribute('data-broken');
        postSel();
      }
    }
    else if(d.type==='ed-serialize'){
      var out=slides.map(function(s,k){return {i:k, html:cleanSlide(s)}});
      try{parent.postMessage({type:'ed-deck',slides:out},'*')}catch(err){}
    }
  });

  show(0);
  try{parent.postMessage({type:'ed-ready',n:slides.length},'*')}catch(e){}
})();"#;

/// Opens the print dialog once the page and its images have loaded, where the page
/// was opened with `?print=1`.
pub const PDF_AUTOPRINT_JS: &'static str = r#"(function(){
  if(!/[?&]print=1/.test(location.search))return;
  function go(){ setTimeout(function(){ try{window.print()}catch(e){} }, 350); }
  var imgs=[].slice.call(document.images).filter(function(i){return !i.complete});
  if(!imgs.length){ if(document.readyState==='complete')go(); else window.addEventListener('load',go); return; }
  var left=imgs.length, fired=false;
  function one(){ if(--left<=0 && !fired){fired=true;go()} }
  imgs.forEach(function(i){ i.addEventListener('load',one); i.addEventListener('error',one); });
  setTimeout(function(){ if(!fired){fired=true;go()} }, 5000); // fallback
})();"#;

/// The print layout: one page per slide, over the mechanics of a deck on screen.
pub const PRINT_CSS: &'static str = r#"/* print layout — one 16:9 page per slide, overrides deck mechanics */
@page{size:1280px 720px;margin:0}
html,body{width:auto;height:auto;overflow:visible;margin:0;padding:0}
#deck{position:static;width:auto;height:auto}
.slide,.slide:not(.active){position:relative!important;display:flex!important;width:1280px;height:720px;inset:auto;page-break-after:always;break-after:page;overflow:hidden;animation:none!important;transform:none!important;-webkit-print-color-adjust:exact;print-color-adjust:exact}
.slide:last-child{page-break-after:auto;break-after:auto}
.slide-inner{transform:none!important}"#;

} // verus!
